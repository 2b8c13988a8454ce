use solidcpp::dispatch::DispatchTable;

fn rows(table: &DispatchTable) -> Vec<(&str, u32)> {
    table.rows.iter().map(|(name, selector)| (name.as_str(), *selector)).collect()
}

#[test]
fn new_table_has_no_rows_and_no_cases() {
    let table = DispatchTable::new();
    assert!(table.rows.is_empty());
    assert_eq!(table.cases(), "");
}

#[test]
fn recording_a_new_name_adds_a_last_row() {
    let mut table = DispatchTable::new();
    table.record("f", 1);
    table.record("g", 2);
    table.record("", 3);
    assert_eq!(rows(&table), vec![("f", 1), ("g", 2), ("", 3)]);
}

#[test]
fn recording_a_name_again_replaces_its_selector_in_place() {
    let mut table = DispatchTable::new();
    table.record("f", 1);
    table.record("g", 2);
    table.record("h", 3);
    table.record("g", 20);
    assert_eq!(rows(&table), vec![("f", 1), ("g", 20), ("h", 3)]);
    table.record("f", 10);
    table.record("h", 30);
    table.record("h", 31);
    assert_eq!(rows(&table), vec![("f", 10), ("g", 20), ("h", 31)]);
}

#[test]
fn two_names_may_share_a_selector() {
    let mut table = DispatchTable::new();
    table.record("f", 5);
    table.record("g", 5);
    assert_eq!(rows(&table), vec![("f", 5), ("g", 5)]);
}

#[test]
fn cases_are_written_in_the_order_of_the_rows() {
    let mut table = DispatchTable::new();
    table.record("transfer", 2835717307);
    table.record("zero", 0);
    table.record("top", u32::MAX);
    assert_eq!(
        table.cases(),
        "\n          case 2835717307: { // selector of transfer\n              return interface_transfer(call_info, input);\n          }\n              break;\n\n          case 0: { // selector of zero\n              return interface_zero(call_info, input);\n          }\n              break;\n\n          case 4294967295: { // selector of top\n              return interface_top(call_info, input);\n          }\n              break;\n"
    );
}
