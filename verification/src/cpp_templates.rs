//! The C++ text of each generated unit, with the places that the generator fills in.
//!
//! Every unit comes as a pair: what the text is, and the function that writes it.

use vstd::prelude::*;
use vstd::string::*;
use crate::text::{lemma_occurs_in_add_left, lemma_occurs_in_add_right, occurs_in};

verus! {

/// The opening of the contract class `class_name`.
pub open spec fn class_header_text(class_name: Seq<char>) -> Seq<char> {
    "\n"@
        + "class "@
        + class_name
        + " : public dtvm::Contract {"@
}

/// Writes `class_header_text`.
pub fn class_header(class_name: &str) -> (text: String)
    ensures
        text@ == class_header_text(class_name@),
{
    let mut text = String::from_str("\n");
    text.append("class ");
    text.append(class_name);
    text.append(" : public dtvm::Contract {");
    text
}

/// The opening of the proxy class of `class_name`: it keeps the remote address, and
/// its constructor handler always reverts.
pub open spec fn proxy_header_text(class_name: Seq<char>) -> Seq<char> {
    "\n"@
        + "// Generate a proxy subclass for each Solidity interface\n"@
        + "class "@
        + class_name
        + "Proxy : public "@
        + class_name
        + " {\n"@
        + "public:\n"@
        + "  inline "@
        + class_name
        + "Proxy(const dtvm::Address& addr) {\n"@
        + "      addr_ = addr;\n"@
        + "  }\n"@
        + "protected:\n"@
        + "   dtvm::CResult constructor(dtvm::CallInfoPtr call, dtvm::Input &input) override {\n"@
        + "      // Since it's just a proxy, there's no need to execute the contract's constructor\n"@
        + "      // do nothing\n"@
        + "      return dtvm::Revert(\"unreachable\");\n"@
        + "   }\n"@
        + "private:\n"@
        + "  dtvm::Address addr_;\n"@
        + "public:\n"@
        + "  // abi proxyes\n"@
}

/// Writes `proxy_header_text`.
pub fn proxy_header(class_name: &str) -> (text: String)
    ensures
        text@ == proxy_header_text(class_name@),
{
    let mut text = String::from_str("\n");
    text.append("// Generate a proxy subclass for each Solidity interface\n");
    text.append("class ");
    text.append(class_name);
    text.append("Proxy : public ");
    text.append(class_name);
    text.append(" {\n");
    text.append("public:\n");
    text.append("  inline ");
    text.append(class_name);
    text.append("Proxy(const dtvm::Address& addr) {\n");
    text.append("      addr_ = addr;\n");
    text.append("  }\n");
    text.append("protected:\n");
    text.append("   dtvm::CResult constructor(dtvm::CallInfoPtr call, dtvm::Input &input) override {\n");
    text.append("      // Since it's just a proxy, there's no need to execute the contract's constructor\n");
    text.append("      // do nothing\n");
    text.append("      return dtvm::Revert(\"unreachable\");\n");
    text.append("   }\n");
    text.append("private:\n");
    text.append("  dtvm::Address addr_;\n");
    text.append("public:\n");
    text.append("  // abi proxyes\n");
    text
}

/// What the contract class declares for a function: the abstract method, the overload that
/// takes the call context, and the dispatch helper that decodes the arguments.
pub open spec fn function_declaration_text(name: Seq<char>, arguments: Seq<char>, rest_arguments: Seq<char>, names: Seq<char>, guard: Seq<char>, decoders: Seq<char>, rest_decoded: Seq<char>) -> Seq<char> {
    "\n"@
        + "public:\n"@
        + "  virtual dtvm::CResult "@
        + name
        + "("@
        + arguments
        + ") = 0;\n"@
        + "  virtual dtvm::CResult "@
        + name
        + "(dtvm::CallInfoPtr call_info "@
        + rest_arguments
        + ") {\n"@
        + "      return "@
        + name
        + "("@
        + names
        + ");\n"@
        + "  }\n"@
        + "protected:\n"@
        + "  inline dtvm::CResult interface_"@
        + name
        + "(dtvm::CallInfoPtr call_info, dtvm::Input &input) {\n"@
        + "      "@
        + guard
        + "\n"@
        + "      "@
        + decoders
        + "\n"@
        + "      return "@
        + name
        + "(call_info"@
        + rest_decoded
        + ");\n"@
        + "  }\n"@
}

/// Writes `function_declaration_text`.
pub fn function_declaration(name: &str, arguments: &str, rest_arguments: &str, names: &str, guard: &str, decoders: &str, rest_decoded: &str) -> (text: String)
    ensures
        text@ == function_declaration_text(name@, arguments@, rest_arguments@, names@, guard@, decoders@, rest_decoded@),
{
    let mut text = String::from_str("\n");
    text.append("public:\n");
    text.append("  virtual dtvm::CResult ");
    text.append(name);
    text.append("(");
    text.append(arguments);
    text.append(") = 0;\n");
    text.append("  virtual dtvm::CResult ");
    text.append(name);
    text.append("(dtvm::CallInfoPtr call_info ");
    text.append(rest_arguments);
    text.append(") {\n");
    text.append("      return ");
    text.append(name);
    text.append("(");
    text.append(names);
    text.append(");\n");
    text.append("  }\n");
    text.append("protected:\n");
    text.append("  inline dtvm::CResult interface_");
    text.append(name);
    text.append("(dtvm::CallInfoPtr call_info, dtvm::Input &input) {\n");
    text.append("      ");
    text.append(guard);
    text.append("\n");
    text.append("      ");
    text.append(decoders);
    text.append("\n");
    text.append("      return ");
    text.append(name);
    text.append("(call_info");
    text.append(rest_decoded);
    text.append(");\n");
    text.append("  }\n");
    text
}

/// What the proxy class defines for a function: the method that encodes the selector bytes
/// and the arguments and calls the remote contract, and its overload with default call
/// parameters.
pub open spec fn proxy_method_text(name: Seq<char>, arguments: Seq<char>, rest_arguments: Seq<char>, names: Seq<char>, rest_names: Seq<char>, bytes_code: Seq<char>, selector: Seq<char>, signature: Seq<char>) -> Seq<char> {
    "\n"@
        + "  inline dtvm::CResult "@
        + name
        + "(dtvm::CallInfoPtr call_info "@
        + rest_arguments
        + ") override {\n"@
        + "      std::vector<uint8_t> encoded_input = "@
        + bytes_code
        + "; // "@
        + selector
        + ", function selector bytes, "@
        + signature
        + "\n"@
        + "      std::vector<uint8_t> encoded_args = dtvm::abi_encode(std::make_tuple("@
        + names
        + "));\n"@
        + "      encoded_input.insert(encoded_input.end(), encoded_args.begin(), encoded_args.end());\n"@
        + "      return dtvm::call(addr_, encoded_input, call_info->value, call_info->gas);\n"@
        + "  }\n"@
        + "  inline dtvm::CResult "@
        + name
        + "("@
        + arguments
        + ") override {\n"@
        + "      return "@
        + name
        + "(dtvm::default_call_info()"@
        + rest_names
        + ");\n"@
        + "  }\n"@
}

/// Writes `proxy_method_text`.
pub fn proxy_method(name: &str, arguments: &str, rest_arguments: &str, names: &str, rest_names: &str, bytes_code: &str, selector: &str, signature: &str) -> (text: String)
    ensures
        text@ == proxy_method_text(name@, arguments@, rest_arguments@, names@, rest_names@, bytes_code@, selector@, signature@),
{
    let mut text = String::from_str("\n");
    text.append("  inline dtvm::CResult ");
    text.append(name);
    text.append("(dtvm::CallInfoPtr call_info ");
    text.append(rest_arguments);
    text.append(") override {\n");
    text.append("      std::vector<uint8_t> encoded_input = ");
    text.append(bytes_code);
    text.append("; // ");
    text.append(selector);
    text.append(", function selector bytes, ");
    text.append(signature);
    text.append("\n");
    text.append("      std::vector<uint8_t> encoded_args = dtvm::abi_encode(std::make_tuple(");
    text.append(names);
    text.append("));\n");
    text.append("      encoded_input.insert(encoded_input.end(), encoded_args.begin(), encoded_args.end());\n");
    text.append("      return dtvm::call(addr_, encoded_input, call_info->value, call_info->gas);\n");
    text.append("  }\n");
    text.append("  inline dtvm::CResult ");
    text.append(name);
    text.append("(");
    text.append(arguments);
    text.append(") override {\n");
    text.append("      return ");
    text.append(name);
    text.append("(dtvm::default_call_info()");
    text.append(rest_names);
    text.append(");\n");
    text.append("  }\n");
    text
}

/// What the contract class defines for an event: a helper that logs the arguments under one
/// topic, the selector bytes.
pub open spec fn event_emitter_text(name: Seq<char>, arguments: Seq<char>, names: Seq<char>, topic: Seq<char>, selector: Seq<char>, signature: Seq<char>) -> Seq<char> {
    "\n"@
        + "protected:\n"@
        + "  inline void emit"@
        + name
        + "("@
        + arguments
        + ") {\n"@
        + "      const std::vector <uint8_t> topic1 = { "@
        + topic
        + " }; // "@
        + selector
        + ", "@
        + signature
        + "\n"@
        + "      const std::vector <uint8_t> data = dtvm::abi_encode(std::make_tuple("@
        + names
        + "));\n"@
        + "      dtvm::hostio::emit_log({topic1}, data);\n"@
        + "  }\n"@
}

/// Writes `event_emitter_text`.
pub fn event_emitter(name: &str, arguments: &str, names: &str, topic: &str, selector: &str, signature: &str) -> (text: String)
    ensures
        text@ == event_emitter_text(name@, arguments@, names@, topic@, selector@, signature@),
{
    let mut text = String::from_str("\n");
    text.append("protected:\n");
    text.append("  inline void emit");
    text.append(name);
    text.append("(");
    text.append(arguments);
    text.append(") {\n");
    text.append("      const std::vector <uint8_t> topic1 = { ");
    text.append(topic);
    text.append(" }; // ");
    text.append(selector);
    text.append(", ");
    text.append(signature);
    text.append("\n");
    text.append("      const std::vector <uint8_t> data = dtvm::abi_encode(std::make_tuple(");
    text.append(names);
    text.append("));\n");
    text.append("      dtvm::hostio::emit_log({topic1}, data);\n");
    text.append("  }\n");
    text
}

/// The opening of the generated constructor of `class_name`.
pub open spec fn constructor_open_text(class_name: Seq<char>) -> Seq<char> {
    "\n"@
        + "  inline "@
        + class_name
        + "() {\n"@
}

/// Writes `constructor_open_text`.
pub fn constructor_open(class_name: &str) -> (text: String)
    ensures
        text@ == constructor_open_text(class_name@),
{
    let mut text = String::from_str("\n");
    text.append("  inline ");
    text.append(class_name);
    text.append("() {\n");
    text
}

/// The two fields of a state variable: its slot and the handle to its value.
pub open spec fn field_pair_text(label: Seq<char>, cpp_type: Seq<char>) -> Seq<char> {
    "\n"@
        + "  dtvm::StorageSlot "@
        + label
        + "_slot;\n"@
        + "  std::shared_ptr<"@
        + cpp_type
        + "> "@
        + label
        + "_;\n"@
}

/// Writes `field_pair_text`.
pub fn field_pair(label: &str, cpp_type: &str) -> (text: String)
    ensures
        text@ == field_pair_text(label@, cpp_type@),
{
    let mut text = String::from_str("\n");
    text.append("  dtvm::StorageSlot ");
    text.append(label);
    text.append("_slot;\n");
    text.append("  std::shared_ptr<");
    text.append(cpp_type);
    text.append("> ");
    text.append(label);
    text.append("_;\n");
    text
}

/// The constructor statements that set up the two fields of a state variable.
pub open spec fn initializer_text(label: Seq<char>, slot: Seq<char>, offset: Seq<char>, cpp_type: Seq<char>) -> Seq<char> {
    "\n"@
        + "      "@
        + label
        + "_slot = dtvm::StorageSlot("@
        + slot
        + ", "@
        + offset
        + ");\n"@
        + "      "@
        + label
        + "_ = std::make_shared<"@
        + cpp_type
        + ">("@
        + label
        + "_slot);\n"@
}

/// Writes `initializer_text`.
pub fn initializer(label: &str, slot: &str, offset: &str, cpp_type: &str) -> (text: String)
    ensures
        text@ == initializer_text(label@, slot@, offset@, cpp_type@),
{
    let mut text = String::from_str("\n");
    text.append("      ");
    text.append(label);
    text.append("_slot = dtvm::StorageSlot(");
    text.append(slot);
    text.append(", ");
    text.append(offset);
    text.append(");\n");
    text.append("      ");
    text.append(label);
    text.append("_ = std::make_shared<");
    text.append(cpp_type);
    text.append(">(");
    text.append(label);
    text.append("_slot);\n");
    text
}

/// The declaration of the factory `from` in the contract class.
pub open spec fn factory_declaration_text(class_name: Seq<char>) -> Seq<char> {
    "\n"@
        + "public:\n"@
        + "  static std::shared_ptr<"@
        + class_name
        + "> from(const dtvm::Address& addr);\n"@
}

/// Writes `factory_declaration_text`.
pub fn factory_declaration(class_name: &str) -> (text: String)
    ensures
        text@ == factory_declaration_text(class_name@),
{
    let mut text = String::from_str("\n");
    text.append("public:\n");
    text.append("  static std::shared_ptr<");
    text.append(class_name);
    text.append("> from(const dtvm::Address& addr);\n");
    text
}

/// One case of the dispatch switch: the selector as its label, the call of the
/// function's dispatch helper as its body.
pub open spec fn dispatch_case_text(selector: Seq<char>, name: Seq<char>) -> Seq<char> {
    "\n"@
        + "          case "@
        + selector
        + ": { // selector of "@
        + name
        + "\n"@
        + "              return interface_"@
        + name
        + "(call_info, input);\n"@
        + "          }\n"@
        + "              break;\n"@
}

/// Writes `dispatch_case_text`.
pub fn dispatch_case(selector: &str, name: &str) -> (text: String)
    ensures
        text@ == dispatch_case_text(selector@, name@),
{
    let mut text = String::from_str("\n");
    text.append("          case ");
    text.append(selector);
    text.append(": { // selector of ");
    text.append(name);
    text.append("\n");
    text.append("              return interface_");
    text.append(name);
    text.append("(call_info, input);\n");
    text.append("          }\n");
    text.append("              break;\n");
    text
}

/// The method `dispatch`, which switches on the selector at the front of the input over
/// `cases` and falls back where none matches, and the method `dispatch_constructor`.
pub open spec fn dispatch_methods_text(cases: Seq<char>) -> Seq<char> {
    "\n"@
        + "public:\n"@
        + "  dtvm::CResult dispatch(dtvm::CallInfoPtr call_info, dtvm::Input &input_with_selector) {\n"@
        + "      const uint32_t selector = input_with_selector.read_selector();\n"@
        + "      // ignore first 4 bytes selector, read the rest as contract abi input\n"@
        + "      dtvm::Input input(input_with_selector.data() + 4, input_with_selector.size() - 4);\n"@
        + "      switch (selector) {\n"@
        + "          "@
        + cases
        + "\n"@
        + "          default: {\n"@
        + "              fallback();\n"@
        + "              return dtvm::Ok();\n"@
        + "          }\n"@
        + "      }\n"@
        + "  }\n"@
        + "\n"@
        + "  dtvm::CResult dispatch_constructor(dtvm::CallInfoPtr call_info, dtvm::Input &input) {\n"@
        + "      return constructor(call_info, input);\n"@
        + "  }\n"@
}

/// Writes `dispatch_methods_text`.
pub fn dispatch_methods(cases: &str) -> (text: String)
    ensures
        text@ == dispatch_methods_text(cases@),
{
    let mut text = String::from_str("\n");
    text.append("public:\n");
    text.append("  dtvm::CResult dispatch(dtvm::CallInfoPtr call_info, dtvm::Input &input_with_selector) {\n");
    text.append("      const uint32_t selector = input_with_selector.read_selector();\n");
    text.append("      // ignore first 4 bytes selector, read the rest as contract abi input\n");
    text.append("      dtvm::Input input(input_with_selector.data() + 4, input_with_selector.size() - 4);\n");
    text.append("      switch (selector) {\n");
    text.append("          ");
    text.append(cases);
    text.append("\n");
    text.append("          default: {\n");
    text.append("              fallback();\n");
    text.append("              return dtvm::Ok();\n");
    text.append("          }\n");
    text.append("      }\n");
    text.append("  }\n");
    text.append("\n");
    text.append("  dtvm::CResult dispatch_constructor(dtvm::CallInfoPtr call_info, dtvm::Input &input) {\n");
    text.append("      return constructor(call_info, input);\n");
    text.append("  }\n");
    text
}

/// The definition of the factory `from`: it makes a proxy for the address.
pub open spec fn factory_definition_text(class_name: Seq<char>) -> Seq<char> {
    "\n"@
        + "std::shared_ptr<"@
        + class_name
        + "> "@
        + class_name
        + "::from(const dtvm::Address& addr) {\n"@
        + "  return std::make_shared<"@
        + class_name
        + "Proxy>(addr);\n"@
        + "}\n"@
}

/// Writes `factory_definition_text`.
pub fn factory_definition(class_name: &str) -> (text: String)
    ensures
        text@ == factory_definition_text(class_name@),
{
    let mut text = String::from_str("\n");
    text.append("std::shared_ptr<");
    text.append(class_name);
    text.append("> ");
    text.append(class_name);
    text.append("::from(const dtvm::Address& addr) {\n");
    text.append("  return std::make_shared<");
    text.append(class_name);
    text.append("Proxy>(addr);\n");
    text.append("}\n");
    text
}

/// One parameter in a method header.
pub open spec fn argument_declaration_text(cpp_type: Seq<char>, name: Seq<char>) -> Seq<char> {
    "const "@
        + cpp_type
        + " &"@
        + name
}

/// Writes `argument_declaration_text`.
pub fn argument_declaration(cpp_type: &str, name: &str) -> (text: String)
    ensures
        text@ == argument_declaration_text(cpp_type@, name@),
{
    let mut text = String::from_str("const ");
    text.append(cpp_type);
    text.append(" &");
    text.append(name);
    text
}

/// The statement that reads argument number `index` from the input.
pub open spec fn argument_decoder_text(cpp_type: Seq<char>, index: Seq<char>) -> Seq<char> {
    cpp_type
        + " arg"@
        + index
        + " = input.read<"@
        + cpp_type
        + ">();\n"@
        + "        "@
}

/// Writes `argument_decoder_text`.
pub fn argument_decoder(cpp_type: &str, index: &str) -> (text: String)
    ensures
        text@ == argument_decoder_text(cpp_type@, index@),
{
    let mut text = String::from_str(cpp_type);
    text.append(" arg");
    text.append(index);
    text.append(" = input.read<");
    text.append(cpp_type);
    text.append(">();\n");
    text.append("        ");
    text
}

/// Four bytes as a C++ initializer list.
pub open spec fn bytes_code_text(first: Seq<char>, second: Seq<char>, third: Seq<char>, fourth: Seq<char>) -> Seq<char> {
    "{ "@
        + first
        + ", "@
        + second
        + ", "@
        + third
        + ", "@
        + fourth
        + " }"@
}

/// Writes `bytes_code_text`.
pub fn bytes_code(first: &str, second: &str, third: &str, fourth: &str) -> (text: String)
    ensures
        text@ == bytes_code_text(first@, second@, third@, fourth@),
{
    let mut text = String::from_str("{ ");
    text.append(first);
    text.append(", ");
    text.append(second);
    text.append(", ");
    text.append(third);
    text.append(", ");
    text.append(fourth);
    text.append(" }");
    text
}

/// The persistent wrapper of a scalar type.
pub open spec fn persistent_value_text(cpp_type: Seq<char>) -> Seq<char> {
    "dtvm::StorageValue<"@
        + cpp_type
        + ">"@
}

/// Writes `persistent_value_text`.
pub fn persistent_value(cpp_type: &str) -> (text: String)
    ensures
        text@ == persistent_value_text(cpp_type@),
{
    let mut text = String::from_str("dtvm::StorageValue<");
    text.append(cpp_type);
    text.append(">");
    text
}

/// What stands in `cases` stands in `dispatch_methods_text`.
pub proof fn lemma_dispatch_methods_holds_cases(cases: Seq<char>, needle: Seq<char>)
    requires
        occurs_in(cases, needle),
    ensures
        occurs_in(dispatch_methods_text(cases), needle),
{
    let text = "\n"@
        + "public:\n"@
        + "  dtvm::CResult dispatch(dtvm::CallInfoPtr call_info, dtvm::Input &input_with_selector) {\n"@
        + "      const uint32_t selector = input_with_selector.read_selector();\n"@
        + "      // ignore first 4 bytes selector, read the rest as contract abi input\n"@
        + "      dtvm::Input input(input_with_selector.data() + 4, input_with_selector.size() - 4);\n"@
        + "      switch (selector) {\n"@
        + "          "@;
    lemma_occurs_in_add_right(text, cases, needle);
    let text = text + cases;
    lemma_occurs_in_add_left(text, "\n"@, needle);
    let text = text + "\n"@;
    lemma_occurs_in_add_left(text, "          default: {\n"@, needle);
    let text = text + "          default: {\n"@;
    lemma_occurs_in_add_left(text, "              fallback();\n"@, needle);
    let text = text + "              fallback();\n"@;
    lemma_occurs_in_add_left(text, "              return dtvm::Ok();\n"@, needle);
    let text = text + "              return dtvm::Ok();\n"@;
    lemma_occurs_in_add_left(text, "          }\n"@, needle);
    let text = text + "          }\n"@;
    lemma_occurs_in_add_left(text, "      }\n"@, needle);
    let text = text + "      }\n"@;
    lemma_occurs_in_add_left(text, "  }\n"@, needle);
    let text = text + "  }\n"@;
    lemma_occurs_in_add_left(text, "\n"@, needle);
    let text = text + "\n"@;
    lemma_occurs_in_add_left(text, "  dtvm::CResult dispatch_constructor(dtvm::CallInfoPtr call_info, dtvm::Input &input) {\n"@, needle);
    let text = text + "  dtvm::CResult dispatch_constructor(dtvm::CallInfoPtr call_info, dtvm::Input &input) {\n"@;
    lemma_occurs_in_add_left(text, "      return constructor(call_info, input);\n"@, needle);
    let text = text + "      return constructor(call_info, input);\n"@;
    lemma_occurs_in_add_left(text, "  }\n"@, needle);
    let text = text + "  }\n"@;
}

} // verus!
