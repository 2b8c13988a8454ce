use solidcpp::sol_types_utils::{
    find_unknown_tag, parse_array_type, parse_mapping_type, parse_type,
    transform_solidity_storage_type_to_cpp,
};

#[test]
fn test_nested_mapping_transform() {
    let input = "t_mapping(t_address,t_mapping(t_address,t_uint256))";
    let output = transform_solidity_storage_type_to_cpp(input);
    assert_eq!(
        output,
        "dtvm::StorageMap<dtvm::Address, dtvm::StorageMap<dtvm::Address, dtvm::uint256>>"
    );
}

#[test]
fn test_simple_type_transform() {
    {
        let solidity_type = "t_address";
        let output = transform_solidity_storage_type_to_cpp(solidity_type);
        assert_eq!(output, "dtvm::Address");
    }
    {
        let solidity_type = "t_uint256";
        let output = transform_solidity_storage_type_to_cpp(solidity_type);
        assert_eq!(output, "dtvm::uint256");
    }
    {
        let solidity_type = "t_string_storage";
        let output = transform_solidity_storage_type_to_cpp(solidity_type);
        assert_eq!(output, "std::string");
    }
    {
        let solidity_type = "t_mapping(t_address,t_uint256)";
        let output = transform_solidity_storage_type_to_cpp(solidity_type);
        assert_eq!(output, "dtvm::StorageMap<dtvm::Address, dtvm::uint256>");
    }
    {
        let solidity_type = "t_array(t_uint32)dyn_storage";
        let output = transform_solidity_storage_type_to_cpp(solidity_type);
        assert_eq!(output, "dtvm::StorageArray<uint32_t>");
    }
}

#[test]
fn every_scalar_tag_has_its_type() {
    let table = [
        ("t_string_storage", "std::string"),
        ("t_bytes32", "dtvm::bytes32"),
        ("t_bytes_storage", "dtvm::Bytes"),
        ("t_uint128", "__uint128_t"),
        ("t_int128", "__int128_t"),
        ("t_uint256", "dtvm::uint256"),
        ("t_int256", "dtvm::int256"),
        ("t_uint64", "uint64_t"),
        ("t_int64", "int64_t"),
        ("t_uint32", "uint32_t"),
        ("t_int32", "int32_t"),
        ("t_uint16", "uint16_t"),
        ("t_int16", "int16_t"),
        ("t_uint8", "uint8_t"),
        ("t_int8", "int8_t"),
        ("t_bool", "bool"),
        ("t_address_storage", "dtvm::Address"),
        ("t_address", "dtvm::Address"),
    ];
    for (tag, cpp) in table {
        assert_eq!(parse_type(tag), Ok(cpp.to_string()), "{}", tag);
    }
}

#[test]
fn mapping_splits_at_the_first_comma() {
    assert_eq!(
        parse_mapping_type("t_mapping(t_address,t_mapping(t_address,t_uint256))"),
        Some(("t_address", "t_mapping(t_address,t_uint256)"))
    );
    assert_eq!(parse_mapping_type("t_mapping(,)"), Some(("", "")));
    assert_eq!(parse_mapping_type("t_mapping(t_address)"), None);
    assert_eq!(parse_mapping_type("t_mapping(t_address,t_bool"), None);
    assert_eq!(parse_mapping_type("mapping(t_address,t_bool)"), None);
    assert_eq!(parse_mapping_type("t_array(t_bool)dyn_storage"), None);
}

#[test]
fn array_element_is_what_stands_between_the_markers() {
    assert_eq!(parse_array_type("t_array(t_uint32)dyn_storage"), Some("t_uint32"));
    assert_eq!(parse_array_type("t_array()dyn_storage"), Some(""));
    assert_eq!(parse_array_type("t_array(t_uint32)"), None);
    assert_eq!(parse_array_type("t_array(t_uint32)10_storage"), None);
    assert_eq!(parse_array_type("t_mapping(t_address,t_bool)"), None);
}

#[test]
fn nested_containers_translate_inside_out() {
    assert_eq!(
        parse_type("t_array(t_mapping(t_address,t_array(t_bool)dyn_storage))dyn_storage"),
        Ok(
            "dtvm::StorageArray<dtvm::StorageMap<dtvm::Address, dtvm::StorageArray<bool>>>"
                .to_string()
        )
    );
    assert_eq!(
        parse_type("t_mapping(t_array(t_uint8)dyn_storage,t_string_storage)"),
        Ok("dtvm::StorageMap<dtvm::StorageArray<uint8_t>, std::string>".to_string())
    );
}

#[test]
fn unknown_tags_are_refused_by_name() {
    let unknown = |tag: &str| Err::<String, String>(tag.to_string());
    assert_eq!(parse_type(""), unknown(""));
    assert_eq!(parse_type("t_uint7"), unknown("t_uint7"));
    assert_eq!(parse_type("uint256"), unknown("uint256"));
    assert_eq!(parse_type("t_mapping(t_address)"), unknown("t_mapping(t_address)"));
    assert_eq!(parse_type("t_array(t_uint8)3_storage"), unknown("t_array(t_uint8)3_storage"));
    assert_eq!(parse_type("t_struct(Point)12_storage"), unknown("t_struct(Point)12_storage"));
}

#[test]
fn the_innermost_unknown_tag_is_named() {
    let unknown = |tag: &str| Err::<String, String>(tag.to_string());
    assert_eq!(parse_type("t_mapping(t_address,t_foo)"), unknown("t_foo"));
    assert_eq!(parse_type("t_mapping(t_unknown,t_address)"), unknown("t_unknown"));
    assert_eq!(parse_type("t_array(t_unknown)dyn_storage"), unknown("t_unknown"));
    assert_eq!(
        parse_type("t_mapping(t_address,t_array(t_mapping(t_bool,t_x))dyn_storage)"),
        unknown("t_x")
    );
    assert_eq!(parse_type("t_array()dyn_storage"), unknown(""));
    assert_eq!(
        parse_type("t_mapping(t_address,t_struct(P)3_storage)"),
        unknown("t_struct(P)3_storage")
    );
}

#[test]
fn of_two_unknown_tags_the_key_is_named() {
    let unknown = |tag: &str| Err::<String, String>(tag.to_string());
    assert_eq!(parse_type("t_mapping(t_first,t_second)"), unknown("t_first"));
    assert_eq!(
        parse_type("t_mapping(t_array(t_a)dyn_storage,t_mapping(t_b,t_c))"),
        unknown("t_a")
    );
    assert_eq!(parse_type("t_mapping(t_bool,t_mapping(t_b,t_c))"), unknown("t_b"));
}

#[test]
fn search_for_the_unknown_tag_agrees_with_translation() {
    for tag in [
        "t_bool",
        "t_mapping(t_address,t_uint256)",
        "t_mapping(t_address,t_foo)",
        "t_array(t_mapping(t_x,t_bool))dyn_storage",
        "t_array(t_uint8)dyn_storage",
        "",
        "t_mapping(,)",
        "nothing",
    ] {
        assert_eq!(find_unknown_tag(tag), parse_type(tag).err(), "{}", tag);
    }
    assert_eq!(find_unknown_tag("t_mapping(t_address,t_foo)"), Some("t_foo".to_string()));
    assert_eq!(find_unknown_tag("t_mapping(,)"), Some("".to_string()));
    assert_eq!(find_unknown_tag("t_int128"), None);
}

#[test]
fn tags_with_wide_characters_are_measured_in_characters() {
    assert_eq!(parse_type("t_mapping(t_address,é)"), Err("é".to_string()));
    assert_eq!(parse_mapping_type("t_mapping(é,ü)"), Some(("é", "ü")));
    assert_eq!(parse_array_type("t_array(é)dyn_storage"), Some("é"));
}

fn depth(text: &str, open: char, close: char) -> i32 {
    let mut now = 0;
    let mut most = 0;
    for c in text.chars() {
        if c == open {
            now += 1;
        } else if c == close {
            now -= 1;
        }
        most = most.max(now);
    }
    assert_eq!(now, 0);
    most
}

#[test]
fn translation_nests_as_deep_as_the_tag() {
    let tags = [
        ("t_bool", 0),
        ("t_mapping(t_address,t_uint256)", 1),
        ("t_array(t_uint32)dyn_storage", 1),
        ("t_mapping(t_address,t_mapping(t_address,t_uint256))", 2),
        ("t_mapping(t_array(t_array(t_bool)dyn_storage)dyn_storage,t_uint8)", 3),
        ("t_array(t_mapping(t_address,t_array(t_mapping(t_int8,t_bool))dyn_storage))dyn_storage", 4),
    ];
    for (tag, expected) in tags {
        let cpp = parse_type(tag).unwrap();
        assert_eq!(depth(tag, '(', ')'), expected, "{}", tag);
        assert_eq!(depth(&cpp, '<', '>'), expected, "{}", cpp);
    }
}

#[test]
fn translation_opens_a_container_for_each_constructor() {
    let tags = [
        ("t_bool", 0, 0),
        ("t_mapping(t_address,t_uint256)", 1, 0),
        ("t_array(t_uint32)dyn_storage", 0, 1),
        ("t_mapping(t_address,t_mapping(t_address,t_uint256))", 2, 0),
        ("t_mapping(t_array(t_array(t_bool)dyn_storage)dyn_storage,t_uint8)", 1, 2),
        ("t_array(t_mapping(t_address,t_array(t_mapping(t_int8,t_bool))dyn_storage))dyn_storage", 2, 2),
    ];
    for (tag, mappings, arrays) in tags {
        let cpp = transform_solidity_storage_type_to_cpp(tag);
        assert_eq!(tag.matches("t_mapping(").count(), mappings, "{}", tag);
        assert_eq!(tag.matches("t_array(").count(), arrays, "{}", tag);
        assert_eq!(cpp.matches("dtvm::StorageMap<").count(), mappings, "{}", cpp);
        assert_eq!(cpp.matches("dtvm::StorageArray<").count(), arrays, "{}", cpp);
    }
}
