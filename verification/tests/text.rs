use solidcpp::text::{
    chars_end_with, chars_find, chars_occur_at, chars_start_with, concat_strings, join_strings,
    replace_all, str_eq, to_chars,
};

fn chars(text: &str) -> Vec<char> {
    text.chars().collect()
}

fn strings(items: &[&str]) -> Vec<String> {
    items.iter().map(|s| s.to_string()).collect()
}

#[test]
fn characters_come_out_in_order() {
    assert_eq!(to_chars(""), Vec::<char>::new());
    assert_eq!(to_chars("a(b)"), vec!['a', '(', 'b', ')']);
    assert_eq!(to_chars("é\u{1F600}z"), vec!['é', '\u{1F600}', 'z']);
}

#[test]
fn texts_are_equal_where_their_characters_are() {
    assert!(str_eq("", ""));
    assert!(str_eq("function", "function"));
    assert!(!str_eq("function", "functions"));
    assert!(!str_eq("function", "Function"));
    assert!(!str_eq("a", ""));
}

#[test]
fn prefix_suffix_and_search_work_on_characters() {
    let text = chars("t_mapping(a,b)");
    assert!(chars_start_with(&text, "t_mapping("));
    assert!(chars_start_with(&text, ""));
    assert!(!chars_start_with(&text, "t_mapping[("));
    assert!(!chars_start_with(&chars("t_"), "t_mapping("));
    assert!(chars_end_with(&text, ")"));
    assert!(chars_end_with(&text, ""));
    assert!(!chars_end_with(&text, "("));
    assert!(!chars_end_with(&chars(")"), "b)"));
    assert_eq!(chars_find(&text, ','), 11);
    assert_eq!(chars_find(&text, 't'), 0);
    assert_eq!(chars_find(&text, ';'), text.len());
    assert_eq!(chars_find(&chars(""), ','), 0);
    assert_eq!(chars_find(&chars("a,b,c"), ','), 1);
    assert!(chars_occur_at(&text, &chars("map"), 2));
    assert!(!chars_occur_at(&text, &chars("map"), 3));
    assert!(chars_occur_at(&text, &chars(""), 14));
}

#[test]
fn join_puts_the_separator_between_neighbours_only() {
    assert_eq!(join_strings(&strings(&[]), ", "), "");
    assert_eq!(join_strings(&strings(&["a"]), ", "), "a");
    assert_eq!(join_strings(&strings(&["a", "b", "c"]), ", "), "a, b, c");
    assert_eq!(join_strings(&strings(&["", ""]), ","), ",");
    assert_eq!(join_strings(&strings(&["a", "b"]), ""), "ab");
    assert_eq!(concat_strings(&strings(&["a", "", "bc"])), "abc");
    assert_eq!(concat_strings(&strings(&[])), "");
}

#[test]
fn replace_changes_every_occurrence_from_the_left() {
    assert_eq!(replace_all("a_meta.json", "_meta.json", "_storage.json"), "a_storage.json");
    assert_eq!(replace_all("aaa", "aa", "b"), "ba");
    assert_eq!(replace_all("aaaa", "aa", "b"), "bb");
    assert_eq!(replace_all("abcabc", "bc", ""), "aa");
    assert_eq!(replace_all("abc", "abc", "x"), "x");
    assert_eq!(replace_all("abc", "abcd", "x"), "abc");
    assert_eq!(replace_all("", "a", "x"), "");
    assert_eq!(replace_all("abc", "", "x"), "abc");
    assert_eq!(replace_all("xéyéz", "é", "ee"), "xeeyeez");
    assert_eq!(replace_all("ababab", "ab", "ab"), "ababab");
}

#[test]
fn replace_agrees_with_the_standard_one_for_a_pattern() {
    for (text, from, to) in [
        ("x_meta.json/y_meta.json", "_meta.json", "_storage.json"),
        ("_meta.jso_meta.json", "_meta.json", "!"),
        ("aXbXc", "X", "--"),
        ("XX", "X", ""),
        ("abababa", "aba", "c"),
    ] {
        assert_eq!(replace_all(text, from, to), text.replace(from, to));
    }
}
