use solidcpp::utils::with_prefix_comma_if_not_empty;

#[test]
fn prefix_comma_goes_before_a_text() {
    assert_eq!(with_prefix_comma_if_not_empty("a, b"), ", a, b");
    assert_eq!(with_prefix_comma_if_not_empty("x"), ", x");
}

#[test]
fn prefix_comma_leaves_the_empty_text_empty() {
    assert_eq!(with_prefix_comma_if_not_empty(""), "");
}
