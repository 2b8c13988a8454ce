use sha3::Digest;
use solidcpp::abi::{
    AbiDocument, AbiEntry, AbiParam, EntryKind, Field, MetadataError, StateMutability, StorageSlot,
};
use solidcpp::generate_hpp::{emit, find_unknown_type, SolHppWriter};
use solidcpp::json::JsonValue;

const PREAMBLE: &str = "\n#pragma once\n#include \"contractlib/v1/contractlib.hpp\"\n";

fn to_json(value: &serde_json::Value) -> JsonValue {
    match value {
        serde_json::Value::Null => JsonValue::Null,
        serde_json::Value::Bool(b) => JsonValue::Boolean(*b),
        serde_json::Value::Number(n) => match n.as_i64() {
            Some(i) => JsonValue::Integer(i),
            None => JsonValue::Number,
        },
        serde_json::Value::String(s) => JsonValue::Text(s.clone()),
        serde_json::Value::Array(items) => JsonValue::List(items.iter().map(to_json).collect()),
        serde_json::Value::Object(members) => {
            JsonValue::Object(members.iter().map(|(k, v)| (k.clone(), to_json(v))).collect())
        }
    }
}

fn parse(text: &str) -> JsonValue {
    to_json(&serde_json::from_str::<serde_json::Value>(text).unwrap())
}

fn param(name: &str, ty: &str) -> AbiParam {
    AbiParam {
        name: name.to_string(),
        declared_type: ty.to_string(),
        canonical_type: ty.to_string(),
    }
}

fn function(name: &str, mutability: StateMutability, inputs: Vec<AbiParam>) -> AbiEntry {
    AbiEntry {
        name: name.to_string(),
        kind: EntryKind::Function,
        state_mutability: mutability,
        inputs,
        outputs: vec![],
    }
}

fn event(name: &str, inputs: Vec<AbiParam>) -> AbiEntry {
    AbiEntry {
        name: name.to_string(),
        kind: EntryKind::Event,
        state_mutability: StateMutability::Unspecified,
        inputs,
        outputs: vec![],
    }
}

fn slot(label: &str, slot: i32, byte_offset: u32, storage_type: &str) -> StorageSlot {
    StorageSlot {
        label: label.to_string(),
        slot,
        byte_offset,
        storage_type: storage_type.to_string(),
    }
}

fn generated(document: &AbiDocument, slots: &Vec<StorageSlot>) -> String {
    let mut writer = SolHppWriter::new();
    writer.add_interface(document, slots).unwrap();
    writer.contents().to_string()
}

fn cpp_param_type(declared: &str) -> &'static str {
    match declared {
        "address" => "dtvm::Address",
        "uint256" => "dtvm::uint256",
        "uint128" => "dtvm::__uint128_t",
        "uint64" => "dtvm::uint64_t",
        "uint32" => "dtvm::uint32_t",
        "uint8" => "dtvm::uint8_t",
        "int256" => "dtvm::int256",
        "int128" => "dtvm::__int128_t",
        "int64" => "dtvm::int64_t",
        "int32" => "dtvm::int32_t",
        "int8" => "dtvm::int8_t",
        "bool" => "dtvm::bool",
        "string" => "dtvm::std::string",
        other => panic!("no such parameter type: {}", other),
    }
}

fn comma_first(text: &str) -> String {
    if text.is_empty() {
        String::new()
    } else {
        format!(", {}", text)
    }
}

/// An independent rendering of the interface with `format`, to hold the library against.
fn expected_interface(document: &AbiDocument, slots: &[(&str, i32, u32, &str, &str)]) -> String {
    let cls = &document.contract_name;
    let mut class = format!("\nclass {cls} : public dtvm::Contract {{");
    let mut proxy = format!(
        "\n// Generate a proxy subclass for each Solidity interface\nclass {cls}Proxy : public {cls} {{\npublic:\n  inline {cls}Proxy(const dtvm::Address& addr) {{\n      addr_ = addr;\n  }}\nprotected:\n   dtvm::CResult constructor(dtvm::CallInfoPtr call, dtvm::Input &input) override {{\n      // Since it's just a proxy, there's no need to execute the contract's constructor\n      // do nothing\n      return dtvm::Revert(\"unreachable\");\n   }}\nprivate:\n  dtvm::Address addr_;\npublic:\n  // abi proxyes\n"
    );
    let mut table: Vec<(String, u32)> = Vec::new();
    for entry in &document.entries {
        let mut args = Vec::new();
        let mut names = Vec::new();
        let mut decoded = Vec::new();
        let mut decoders = String::new();
        let mut types = Vec::new();
        for (i, input) in entry.inputs.iter().enumerate() {
            let ty = cpp_param_type(&input.declared_type);
            let name = if input.name.is_empty() {
                format!("annoy_arg{i}")
            } else {
                input.name.clone()
            };
            args.push(format!("const {ty} &{name}"));
            decoders += &format!("{ty} arg{i} = input.read<{ty}>();\n        ");
            decoded.push(format!("arg{i}"));
            names.push(name);
            types.push(input.canonical_type.clone());
        }
        let args = args.join(", ");
        let names = names.join(", ");
        let decoded = decoded.join(", ");
        let name = &entry.name;
        let signature = format!("{}({})", name, types.join(","));
        let digest = sha3::Keccak256::digest(signature.as_bytes());
        let bytes = [digest[0], digest[1], digest[2], digest[3]];
        let selector = u32::from_be_bytes(bytes);
        let list = format!("{}, {}, {}, {}", bytes[0], bytes[1], bytes[2], bytes[3]);
        let args_rest = comma_first(&args);
        let names_rest = comma_first(&names);
        let decoded_rest = comma_first(&decoded);
        match entry.kind {
            EntryKind::Function => {
                match table.iter_mut().find(|row| &row.0 == name) {
                    Some(row) => row.1 = selector,
                    None => table.push((name.clone(), selector)),
                }
                let guard = if entry.state_mutability == StateMutability::Payable {
                    ""
                } else {
                    "dtvm::require(dtvm::get_msg_value() == 0, \"not payable method\");"
                };
                class += &format!(
                    "\npublic:\n  virtual dtvm::CResult {name}({args}) = 0;\n  virtual dtvm::CResult {name}(dtvm::CallInfoPtr call_info {args_rest}) {{\n      return {name}({names});\n  }}\nprotected:\n  inline dtvm::CResult interface_{name}(dtvm::CallInfoPtr call_info, dtvm::Input &input) {{\n      {guard}\n      {decoders}\n      return {name}(call_info{decoded_rest});\n  }}\n"
                );
                proxy += &format!(
                    "\n  inline dtvm::CResult {name}(dtvm::CallInfoPtr call_info {args_rest}) override {{\n      std::vector<uint8_t> encoded_input = {{ {list} }}; // {selector}, function selector bytes, {signature}\n      std::vector<uint8_t> encoded_args = dtvm::abi_encode(std::make_tuple({names}));\n      encoded_input.insert(encoded_input.end(), encoded_args.begin(), encoded_args.end());\n      return dtvm::call(addr_, encoded_input, call_info->value, call_info->gas);\n  }}\n  inline dtvm::CResult {name}({args}) override {{\n      return {name}(dtvm::default_call_info(){names_rest});\n  }}\n"
                );
            }
            EntryKind::Event => {
                class += &format!(
                    "\nprotected:\n  inline void emit{name}({args}) {{\n      const std::vector <uint8_t> topic1 = {{ {list} }}; // {selector}, {signature}\n      const std::vector <uint8_t> data = dtvm::abi_encode(std::make_tuple({names}));\n      dtvm::hostio::emit_log({{topic1}}, data);\n  }}\n"
                );
            }
        }
    }
    let mut constructor = String::new();
    if !slots.is_empty() {
        class += "protected:";
        constructor += &format!("\n  inline {cls}() {{\n");
    }
    for (label, slot, offset, _tag, ty) in slots {
        class += &format!(
            "\n  dtvm::StorageSlot {label}_slot;\n  std::shared_ptr<{ty}> {label}_;\n"
        );
        constructor += &format!(
            "\n      {label}_slot = dtvm::StorageSlot({slot}, {offset});\n      {label}_ = std::make_shared<{ty}>({label}_slot);\n"
        );
    }
    if !slots.is_empty() {
        constructor += "    }\n\n";
    }
    class += &constructor;
    class += &format!(
        "\npublic:\n  static std::shared_ptr<{cls}> from(const dtvm::Address& addr);\n"
    );
    let mut cases = String::new();
    for (name, selector) in &table {
        cases += &format!(
            "\n          case {selector}: {{ // selector of {name}\n              return interface_{name}(call_info, input);\n          }}\n              break;\n"
        );
    }
    class += &format!(
        "\npublic:\n  dtvm::CResult dispatch(dtvm::CallInfoPtr call_info, dtvm::Input &input_with_selector) {{\n      const uint32_t selector = input_with_selector.read_selector();\n      // ignore first 4 bytes selector, read the rest as contract abi input\n      dtvm::Input input(input_with_selector.data() + 4, input_with_selector.size() - 4);\n      switch (selector) {{\n          {cases}\n          default: {{\n              fallback();\n              return dtvm::Ok();\n          }}\n      }}\n  }}\n\n  dtvm::CResult dispatch_constructor(dtvm::CallInfoPtr call_info, dtvm::Input &input) {{\n      return constructor(call_info, input);\n  }}\n"
    );
    class += "};\n";
    proxy += "};\n";
    proxy += &format!(
        "\nstd::shared_ptr<{cls}> {cls}::from(const dtvm::Address& addr) {{\n  return std::make_shared<{cls}Proxy>(addr);\n}}\n"
    );
    format!("{PREAMBLE}{class}{proxy}")
}

fn token_document() -> AbiDocument {
    AbiDocument {
        contract_name: "MyToken".to_string(),
        entries: vec![
            function(
                "transfer",
                StateMutability::NonPayable,
                vec![param("to", "address"), param("amount", "uint256")],
            ),
            function("balanceOf", StateMutability::Unspecified, vec![param("", "address")]),
            function("deposit", StateMutability::Payable, vec![]),
            event(
                "Transfer",
                vec![param("from", "address"), param("", "address"), param("value", "uint256")],
            ),
            function(
                "setAll",
                StateMutability::NonPayable,
                vec![
                    param("a", "uint128"),
                    param("b", "uint64"),
                    param("c", "uint32"),
                    param("d", "uint8"),
                    param("e", "int256"),
                    param("f", "int128"),
                    param("g", "int64"),
                    param("h", "int32"),
                    param("i", "int8"),
                    param("j", "bool"),
                    param("", "string"),
                ],
            ),
        ],
    }
}

#[test]
fn new_writer_holds_the_preamble() {
    let writer = SolHppWriter::new();
    assert_eq!(writer.contents(), PREAMBLE);
}

#[test]
fn transfer_scenario_has_signature_guard_and_selector() {
    let metadata = parse(
        r#"{"settings":{"compilationTarget":{"token.sol":"Token"}},
            "output":{"abi":[{"name":"transfer","type":"function","inputs":[
              {"type":"address","internalType":"address","name":"to"},
              {"type":"uint256","internalType":"uint256","name":"amount"}]}]}}"#,
    );
    let mut writer = SolHppWriter::new();
    assert_eq!(writer.add_solidity_interface(&metadata, None), Ok(()));
    let text = writer.contents();
    // the selector of transfer(address,uint256) is a9059cbb
    assert!(text.contains(
        "          case 2835717307: { // selector of transfer\n              return interface_transfer(call_info, input);\n          }\n              break;\n"
    ));
    assert!(text.contains(
        "      std::vector<uint8_t> encoded_input = { 169, 5, 156, 187 }; // 2835717307, function selector bytes, transfer(address,uint256)\n"
    ));
    // the function is not payable, so its dispatch helper refuses value
    assert!(text.contains(
        "  inline dtvm::CResult interface_transfer(dtvm::CallInfoPtr call_info, dtvm::Input &input) {\n      dtvm::require(dtvm::get_msg_value() == 0, \"not payable method\");\n      dtvm::Address arg0 = input.read<dtvm::Address>();\n        dtvm::uint256 arg1 = input.read<dtvm::uint256>();\n        \n      return transfer(call_info, arg0, arg1);\n  }\n"
    ));
}

#[test]
fn payable_function_takes_value() {
    let metadata = parse(
        r#"{"settings":{"compilationTarget":{"token.sol":"Token"}},
            "output":{"abi":[{"name":"deposit","type":"function","stateMutability":"payable",
              "inputs":[]}]}}"#,
    );
    let mut writer = SolHppWriter::new();
    assert_eq!(writer.add_solidity_interface(&metadata, None), Ok(()));
    assert!(!writer.contents().contains("not payable method"));
    assert!(writer.contents().contains(
        "  inline dtvm::CResult interface_deposit(dtvm::CallInfoPtr call_info, dtvm::Input &input) {\n      \n      \n      return deposit(call_info);\n  }\n"
    ));
}

#[test]
fn view_function_refuses_value() {
    let metadata = parse(
        r#"{"settings":{"compilationTarget":{"token.sol":"Token"}},
            "output":{"abi":[{"name":"total","type":"function","stateMutability":"view",
              "inputs":[]}]}}"#,
    );
    let mut writer = SolHppWriter::new();
    assert_eq!(writer.add_solidity_interface(&metadata, None), Ok(()));
    assert!(writer.contents().contains(
        "  inline dtvm::CResult interface_total(dtvm::CallInfoPtr call_info, dtvm::Input &input) {\n      dtvm::require(dtvm::get_msg_value() == 0, \"not payable method\");\n      \n      return total(call_info);\n  }\n"
    ));
}

#[test]
fn non_payable_function_refuses_value() {
    let metadata = parse(
        r#"{"settings":{"compilationTarget":{"token.sol":"Token"}},
            "output":{"abi":[{"name":"transfer","type":"function","stateMutability":"nonpayable",
              "inputs":[
              {"type":"address","internalType":"address","name":"to"},
              {"type":"uint256","internalType":"uint256","name":"amount"}]}]}}"#,
    );
    let mut writer = SolHppWriter::new();
    assert_eq!(writer.add_solidity_interface(&metadata, None), Ok(()));
    assert!(writer.contents().contains(
        "  inline dtvm::CResult interface_transfer(dtvm::CallInfoPtr call_info, dtvm::Input &input) {\n      dtvm::require(dtvm::get_msg_value() == 0, \"not payable method\");\n      dtvm::Address arg0 = input.read<dtvm::Address>();\n"
    ));
}

#[test]
fn smallest_interface_is_written_out_in_full() {
    let document = AbiDocument { contract_name: "C".to_string(), entries: vec![] };
    let expected = "\n#pragma once\n#include \"contractlib/v1/contractlib.hpp\"\n\nclass C : public dtvm::Contract {\npublic:\n  static std::shared_ptr<C> from(const dtvm::Address& addr);\n\npublic:\n  dtvm::CResult dispatch(dtvm::CallInfoPtr call_info, dtvm::Input &input_with_selector) {\n      const uint32_t selector = input_with_selector.read_selector();\n      // ignore first 4 bytes selector, read the rest as contract abi input\n      dtvm::Input input(input_with_selector.data() + 4, input_with_selector.size() - 4);\n      switch (selector) {\n          \n          default: {\n              fallback();\n              return dtvm::Ok();\n          }\n      }\n  }\n\n  dtvm::CResult dispatch_constructor(dtvm::CallInfoPtr call_info, dtvm::Input &input) {\n      return constructor(call_info, input);\n  }\n};\n\n// Generate a proxy subclass for each Solidity interface\nclass CProxy : public C {\npublic:\n  inline CProxy(const dtvm::Address& addr) {\n      addr_ = addr;\n  }\nprotected:\n   dtvm::CResult constructor(dtvm::CallInfoPtr call, dtvm::Input &input) override {\n      // Since it's just a proxy, there's no need to execute the contract's constructor\n      // do nothing\n      return dtvm::Revert(\"unreachable\");\n   }\nprivate:\n  dtvm::Address addr_;\npublic:\n  // abi proxyes\n};\n\nstd::shared_ptr<C> C::from(const dtvm::Address& addr) {\n  return std::make_shared<CProxy>(addr);\n}\n";
    assert_eq!(generated(&document, &vec![]), expected);
}

#[test]
fn whole_interface_matches_an_independent_rendering() {
    let document = token_document();
    let slots = vec![
        slot("balances", 0, 0, "t_mapping(t_address,t_uint256)"),
        slot("owner", 1, 0, "t_address"),
        slot("paused", 1, 20, "t_bool"),
        slot("holders", -2, 4294967295, "t_array(t_address)dyn_storage"),
        slot("name", 2147483647, 3, "t_string_storage"),
        slot("low", -2147483648, 10, "t_uint8"),
    ];
    let expected = expected_interface(
        &document,
        &[
            (
                "balances",
                0,
                0,
                "t_mapping(t_address,t_uint256)",
                "dtvm::StorageMap<dtvm::Address, dtvm::uint256>",
            ),
            ("owner", 1, 0, "t_address", "dtvm::StorageValue<dtvm::Address>"),
            ("paused", 1, 20, "t_bool", "dtvm::StorageValue<bool>"),
            (
                "holders",
                -2,
                4294967295,
                "t_array(t_address)dyn_storage",
                "dtvm::StorageArray<dtvm::Address>",
            ),
            ("name", 2147483647, 3, "t_string_storage", "dtvm::StorageValue<std::string>"),
            ("low", -2147483648, 10, "t_uint8", "dtvm::StorageValue<uint8_t>"),
        ],
    );
    assert_eq!(generated(&document, &slots), expected);
}

#[test]
fn interface_without_storage_matches_an_independent_rendering() {
    let document = token_document();
    assert_eq!(generated(&document, &vec![]), expected_interface(&document, &[]));
}

#[test]
fn unnamed_parameters_are_named_by_their_position() {
    let document = AbiDocument {
        contract_name: "C".to_string(),
        entries: vec![function(
            "f",
            StateMutability::Unspecified,
            vec![param("", "bool"), param("x", "uint8"), param("", "string")],
        )],
    };
    let text = generated(&document, &vec![]);
    assert!(text.contains(
        "  virtual dtvm::CResult f(const dtvm::bool &annoy_arg0, const dtvm::uint8_t &x, const dtvm::std::string &annoy_arg2) = 0;\n"
    ));
    assert!(text.contains("      return f(annoy_arg0, x, annoy_arg2);\n"));
    assert!(text.contains("      return f(call_info, arg0, arg1, arg2);\n"));
}

#[test]
fn function_without_parameters_has_no_comma() {
    let document = AbiDocument {
        contract_name: "C".to_string(),
        entries: vec![function("ping", StateMutability::Payable, vec![])],
    };
    let text = generated(&document, &vec![]);
    assert!(text.contains("  virtual dtvm::CResult ping() = 0;\n"));
    assert!(text.contains("  virtual dtvm::CResult ping(dtvm::CallInfoPtr call_info ) {\n"));
    assert!(text.contains("      return ping(call_info);\n"));
    assert!(text.contains("      return ping(dtvm::default_call_info());\n"));
}

#[test]
fn event_logs_its_selector_as_the_only_topic() {
    let document = AbiDocument {
        contract_name: "C".to_string(),
        entries: vec![event(
            "Transfer",
            vec![param("from", "address"), param("to", "address"), param("value", "uint256")],
        )],
    };
    let interface = emit(&document, &vec![]);
    // keccak256("Transfer(address,address,uint256)") starts with ddf252ad
    assert!(interface.base_class.contains(
        "\nprotected:\n  inline void emitTransfer(const dtvm::Address &from, const dtvm::Address &to, const dtvm::uint256 &value) {\n      const std::vector <uint8_t> topic1 = { 221, 242, 82, 173 }; // 3723645613, Transfer(address,address,uint256)\n      const std::vector <uint8_t> data = dtvm::abi_encode(std::make_tuple(from, to, value));\n      dtvm::hostio::emit_log({topic1}, data);\n  }\n"
    ));
    // events get no case and no proxy method
    assert!(!interface.base_class.contains("case "));
    assert!(interface.proxy_class.ends_with("  // abi proxyes\n};\n"));
}

#[test]
fn signature_uses_the_canonical_type() {
    let document = AbiDocument {
        contract_name: "C".to_string(),
        entries: vec![function(
            "f",
            StateMutability::Unspecified,
            vec![AbiParam {
                name: "who".to_string(),
                declared_type: "address".to_string(),
                canonical_type: "address payable".to_string(),
            }],
        )],
    };
    let text = generated(&document, &vec![]);
    assert!(text.contains(", function selector bytes, f(address payable)\n"));
    let digest = sha3::Keccak256::digest("f(address payable)".as_bytes());
    let selector = u32::from_be_bytes([digest[0], digest[1], digest[2], digest[3]]);
    assert!(text.contains(&format!("          case {}: {{ // selector of f\n", selector)));
}

#[test]
fn every_function_has_its_case_and_its_proxy_prefix() {
    let document = token_document();
    let interface = emit(&document, &vec![]);
    for entry in &document.entries {
        if entry.kind != EntryKind::Function {
            continue;
        }
        let types: Vec<String> = entry.inputs.iter().map(|p| p.canonical_type.clone()).collect();
        let signature = format!("{}({})", entry.name, types.join(","));
        let digest = sha3::Keccak256::digest(signature.as_bytes());
        let selector = u32::from_be_bytes([digest[0], digest[1], digest[2], digest[3]]);
        assert!(interface.base_class.contains(&format!(
            "          case {}: {{ // selector of {}\n              return interface_{}(call_info, input);\n",
            selector, entry.name, entry.name
        )));
        assert!(interface.proxy_class.contains(&format!(
            "encoded_input = {{ {}, {}, {}, {} }}; // {}, function selector bytes, {}\n",
            digest[0], digest[1], digest[2], digest[3], selector, signature
        )));
    }
}

#[test]
fn later_function_of_a_name_takes_the_case() {
    let document = AbiDocument {
        contract_name: "C".to_string(),
        entries: vec![
            function("f", StateMutability::Unspecified, vec![param("a", "bool")]),
            function("g", StateMutability::Unspecified, vec![]),
            function("f", StateMutability::Unspecified, vec![param("a", "uint8")]),
        ],
    };
    let interface = emit(&document, &vec![]);
    let first = sha3::Keccak256::digest(b"f(bool)");
    let last = sha3::Keccak256::digest(b"f(uint8)");
    let other = sha3::Keccak256::digest(b"g()");
    let first = u32::from_be_bytes([first[0], first[1], first[2], first[3]]);
    let last = u32::from_be_bytes([last[0], last[1], last[2], last[3]]);
    let other = u32::from_be_bytes([other[0], other[1], other[2], other[3]]);
    let text = &interface.base_class;
    assert!(!text.contains(&format!("case {}:", first)));
    assert_eq!(text.matches("// selector of f\n").count(), 1);
    let at_f = text.find(&format!("case {}: {{ // selector of f\n", last)).unwrap();
    let at_g = text.find(&format!("case {}: {{ // selector of g\n", other)).unwrap();
    // the row of a name stays where the name was first recorded
    assert!(at_f < at_g);
    // both functions of the name are declared and proxied
    assert_eq!(text.matches("  virtual dtvm::CResult f(const ").count(), 2);
    assert_eq!(interface.proxy_class.matches(", function selector bytes, f(").count(), 2);
}

#[test]
fn storage_fields_are_set_up_in_layout_order() {
    let document = AbiDocument { contract_name: "C".to_string(), entries: vec![] };
    let slots = vec![
        slot("zeta", 5, 0, "t_uint256"),
        slot("alpha", 0, 0, "t_uint256"),
        slot("mid", 2, 16, "t_mapping(t_address,t_bool)"),
    ];
    let text = generated(&document, &slots);
    let fields = ["zeta", "alpha", "mid"].map(|l| text.find(&format!("  dtvm::StorageSlot {}_slot;\n", l)).unwrap());
    assert!(fields[0] < fields[1] && fields[1] < fields[2]);
    let sets = ["zeta", "alpha", "mid"].map(|l| text.find(&format!("      {}_slot = dtvm::StorageSlot(", l)).unwrap());
    assert!(sets[0] < sets[1] && sets[1] < sets[2]);
    assert!(fields[2] < sets[0]);
    assert!(text.contains(
        "{protected:\n  dtvm::StorageSlot zeta_slot;\n  std::shared_ptr<dtvm::StorageValue<dtvm::uint256>> zeta_;\n"
    ));
    assert!(text.contains(
        "\n  inline C() {\n\n      zeta_slot = dtvm::StorageSlot(5, 0);\n      zeta_ = std::make_shared<dtvm::StorageValue<dtvm::uint256>>(zeta_slot);\n"
    ));
    assert!(text.contains(
        "\n      mid_slot = dtvm::StorageSlot(2, 16);\n      mid_ = std::make_shared<dtvm::StorageMap<dtvm::Address, bool>>(mid_slot);\n    }\n\n\npublic:\n  static std::shared_ptr<C> from("
    ));
}

#[test]
fn empty_layout_gives_no_fields_and_no_constructor() {
    let metadata = parse(
        r#"{"settings":{"compilationTarget":{"c.sol":"C"}},"output":{"abi":[]}}"#,
    );
    let storage = parse(r#"{"storage":[]}"#);
    let mut with_empty = SolHppWriter::new();
    assert_eq!(with_empty.add_solidity_interface(&metadata, Some(&storage)), Ok(()));
    let mut without = SolHppWriter::new();
    assert_eq!(without.add_solidity_interface(&metadata, None), Ok(()));
    assert_eq!(with_empty.contents(), without.contents());
    assert!(!without.contents().contains("protected:\n  dtvm::StorageSlot"));
    assert!(!without.contents().contains("  inline C() {"));
    assert!(!without.contents().contains("_slot"));
}

#[test]
fn interfaces_pile_up_in_one_buffer() {
    let first = AbiDocument { contract_name: "A".to_string(), entries: vec![] };
    let second = AbiDocument {
        contract_name: "B".to_string(),
        entries: vec![function("f", StateMutability::Unspecified, vec![])],
    };
    let mut writer = SolHppWriter::new();
    writer.add_interface(&first, &vec![]).unwrap();
    let after_first = writer.contents().to_string();
    assert_eq!(after_first, generated(&first, &vec![]));
    writer.add_interface(&second, &vec![]).unwrap();
    let tail = &generated(&second, &vec![])[PREAMBLE.len()..];
    assert_eq!(writer.contents(), format!("{}{}", after_first, tail));
}

#[test]
fn generated_parts_come_in_the_order_class_proxy_factory() {
    let document = token_document();
    let interface = emit(&document, &vec![]);
    let mut writer = SolHppWriter::new();
    writer.add_generated(&interface);
    assert_eq!(
        writer.contents(),
        format!(
            "{}{}{}{}",
            PREAMBLE, interface.base_class, interface.proxy_class, interface.factory
        )
    );
    assert!(interface.base_class.starts_with("\nclass MyToken : public dtvm::Contract {"));
    assert!(interface.proxy_class.starts_with(
        "\n// Generate a proxy subclass for each Solidity interface\nclass MyTokenProxy : public MyToken {\n"
    ));
    assert_eq!(
        interface.factory,
        "\nstd::shared_ptr<MyToken> MyToken::from(const dtvm::Address& addr) {\n  return std::make_shared<MyTokenProxy>(addr);\n}\n"
    );
}

#[test]
fn unknown_parameter_type_is_reported_and_nothing_is_added() {
    let document = AbiDocument {
        contract_name: "C".to_string(),
        entries: vec![
            function("f", StateMutability::Unspecified, vec![param("a", "bool")]),
            function(
                "g",
                StateMutability::Unspecified,
                vec![param("a", "uint8"), param("b", "bytes32"), param("c", "uint16")],
            ),
        ],
    };
    let slots = vec![slot("x", 0, 0, "t_nothing")];
    assert_eq!(find_unknown_type(&document, &slots), Some("bytes32".to_string()));
    let mut writer = SolHppWriter::new();
    assert_eq!(
        writer.add_interface(&document, &slots),
        Err(MetadataError::UnknownType("bytes32".to_string()))
    );
    assert_eq!(writer.contents(), PREAMBLE);
}

#[test]
fn unknown_storage_type_is_named_by_its_innermost_tag() {
    let document = AbiDocument { contract_name: "C".to_string(), entries: vec![] };
    let slots = vec![
        slot("a", 0, 0, "t_uint256"),
        slot("b", 1, 0, "t_mapping(t_address,t_struct(P)3_storage)"),
        slot("c", 2, 0, "t_other"),
    ];
    let mut writer = SolHppWriter::new();
    // the error names the tag inside the mapping that is not known
    assert_eq!(
        writer.add_interface(&document, &slots),
        Err(MetadataError::UnknownType("t_struct(P)3_storage".to_string()))
    );
    assert_eq!(writer.contents(), PREAMBLE);
    assert_eq!(find_unknown_type(&document, &vec![slot("a", 0, 0, "t_uint256")]), None);
}

#[test]
fn metadata_and_layout_are_read_and_generated() {
    let metadata = parse(
        r#"{"settings":{"compilationTarget":{"token.sol":"MyToken"}},
            "output":{"abi":[
              {"name":"transfer","type":"function","stateMutability":"nonpayable","inputs":[
                 {"type":"address","internalType":"address","name":"to"},
                 {"type":"uint256","internalType":"uint256","name":"amount"}],
               "outputs":[{"type":"bool","internalType":"bool","name":""}]},
              {"name":"Transfer","type":"event","anonymous":false,"inputs":[
                 {"type":"address","internalType":"address","name":"from","indexed":true},
                 {"type":"uint256","internalType":"uint256","name":"value","indexed":false}]}
            ]}}"#,
    );
    let storage = parse(
        r#"{"storage":[
             {"label":"balances","slot":"0","offset":0,"type":"t_mapping(t_address,t_uint256)"},
             {"label":"supply","slot":"1","offset":4,"type":"t_uint256"}]}"#,
    );
    let mut writer = SolHppWriter::new();
    assert_eq!(writer.add_solidity_interface(&metadata, Some(&storage)), Ok(()));
    let document = AbiDocument {
        contract_name: "MyToken".to_string(),
        entries: vec![
            function(
                "transfer",
                StateMutability::NonPayable,
                vec![param("to", "address"), param("amount", "uint256")],
            ),
            event("Transfer", vec![param("from", "address"), param("value", "uint256")]),
        ],
    };
    let expected = expected_interface(
        &document,
        &[
            (
                "balances",
                0,
                0,
                "t_mapping(t_address,t_uint256)",
                "dtvm::StorageMap<dtvm::Address, dtvm::uint256>",
            ),
            ("supply", 1, 4, "t_uint256", "dtvm::StorageValue<dtvm::uint256>"),
        ],
    );
    assert_eq!(writer.contents(), expected);
}

#[test]
fn refused_metadata_leaves_the_buffer_as_it_was() {
    let metadata = parse(r#"{"settings":{},"output":{"abi":[]}}"#);
    let mut writer = SolHppWriter::new();
    assert_eq!(
        writer.add_solidity_interface(&metadata, None),
        Err(MetadataError::MissingField(Field::CompilationTarget))
    );
    assert_eq!(writer.contents(), PREAMBLE);
    let metadata = parse(r#"{"settings":{"compilationTarget":{"c.sol":"C"}},"output":{"abi":[]}}"#);
    let storage = parse(r#"{"layout":[]}"#);
    assert_eq!(
        writer.add_solidity_interface(&metadata, Some(&storage)),
        Err(MetadataError::MissingField(Field::Storage))
    );
    assert_eq!(writer.contents(), PREAMBLE);
    let storage = parse(r#"{"storage":[{"label":"x","slot":"0","offset":0,"type":"t_x"}]}"#);
    assert_eq!(
        writer.add_solidity_interface(&metadata, Some(&storage)),
        Err(MetadataError::UnknownType("t_x".to_string()))
    );
    assert_eq!(writer.contents(), PREAMBLE);
}
