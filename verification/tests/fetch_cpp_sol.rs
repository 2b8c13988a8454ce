use solidcpp::fetch_cpp_sol::{blocks_from_matches, extract_solidity_from_cpp};

#[test]
fn test_extract_solidity_from_cpp() {
    let s = r#"
        SOLIDITY(ContractName, R"""(
            pragma solidity ^0.8.0;

            contract ContractName {
                // ...
            }
          )""")

        void main() {
          printf("Hello, world!");
        }
    "#;
    let sols = extract_solidity_from_cpp(s);
    println!("extracted: {sols:?}");
    assert_eq!(sols.len(), 1);
    assert_eq!(sols[0].contract_name, "ContractName");
    assert!(sols[0].solidity_code.contains("contract ContractName {"))
}

#[test]
fn text_without_a_block_yields_nothing() {
    assert!(extract_solidity_from_cpp("").is_empty());
    assert!(extract_solidity_from_cpp("int main() { return 0; }").is_empty());
    assert!(extract_solidity_from_cpp("SOLIDITY(Name, R\"\"\"( contract Name {}").is_empty());
    assert!(extract_solidity_from_cpp("SOLIDITY(, R\"\"\"()\"\"\")").is_empty());
}

#[test]
fn block_source_is_taken_verbatim() {
    let sols = extract_solidity_from_cpp("x SOLIDITY(my_token,R\"\"\"(a\nb)\"\"\") y");
    assert_eq!(sols.len(), 1);
    assert_eq!(sols[0].contract_name, "my_token");
    assert_eq!(sols[0].solidity_code, "a\nb");
}

#[test]
fn each_block_gives_its_own_entry() {
    let text = "SOLIDITY(A, R\"\"\"(one)\"\"\")\nSOLIDITY(B, R\"\"\"(two)\"\"\")";
    let sols = extract_solidity_from_cpp(text);
    assert_eq!(sols.len(), 2);
    assert_eq!(sols[0].contract_name, "A");
    assert_eq!(sols[0].solidity_code, "one");
    assert_eq!(sols[1].contract_name, "B");
    assert_eq!(sols[1].solidity_code, "two");
}

#[test]
fn blocks_come_in_the_order_of_the_text_whatever_stands_around_them() {
    let text = "#include <x>\nSOLIDITY(First,R\"\"\"(\ncontract First { f(); }\n)\"\"\")\nint a = 1; // )\n\nSOLIDITY(second_1,   R\"\"\"(b)\"\"\")SOLIDITY(Third, R\"\"\"()\"\"\")\nvoid main() {}\n";
    let sols = extract_solidity_from_cpp(text);
    let found: Vec<(&str, &str)> =
        sols.iter().map(|s| (s.contract_name.as_str(), s.solidity_code.as_str())).collect();
    assert_eq!(
        found,
        vec![("First", "\ncontract First { f(); }\n"), ("second_1", "b"), ("Third", "")]
    );
}

#[test]
fn block_source_may_hold_brackets_and_quotes() {
    let text = "SOLIDITY(A, R\"\"\"(f(\"x\") \"\"\" ) )\"\" )\"\"\")";
    let sols = extract_solidity_from_cpp(text);
    assert_eq!(sols.len(), 1);
    assert_eq!(sols[0].solidity_code, "f(\"x\") \"\"\" ) )\"\" ");
}

#[test]
fn block_without_its_closing_marker_is_no_block() {
    let text = "SOLIDITY(A, R\"\"\"(one)\"\"\")\nSOLIDITY(B, R\"\"\"(two";
    let sols = extract_solidity_from_cpp(text);
    assert_eq!(sols.len(), 1);
    assert_eq!(sols[0].contract_name, "A");
    assert_eq!(sols[0].solidity_code, "one");
}

#[test]
fn absent_groups_become_empty_texts() {
    let matches = vec![
        vec![Some("whole".to_string()), Some("Name".to_string()), None],
        vec![Some("whole".to_string())],
        vec![],
        vec![None, None, Some("code".to_string()), Some("more".to_string())],
    ];
    let blocks = blocks_from_matches(&matches);
    assert_eq!(blocks.len(), 4);
    assert_eq!(blocks[0].contract_name, "Name");
    assert_eq!(blocks[0].solidity_code, "");
    assert_eq!(blocks[1].contract_name, "");
    assert_eq!(blocks[1].solidity_code, "");
    assert_eq!(blocks[2].contract_name, "");
    assert_eq!(blocks[3].contract_name, "");
    assert_eq!(blocks[3].solidity_code, "code");
}
