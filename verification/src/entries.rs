//! What is generated for one entry of an ABI: its part of the contract class, its part of
//! the proxy class, and its selector.

use vstd::prelude::*;
use vstd::string::*;
use crate::abi::{AbiEntry, EntryKind, EntryModel, StateMutability, entries_view};
use crate::arguments::{
    ArgumentTexts, arguments_text, canonical_types, decoded_names_text,
    decoders_text, find_unknown_param_type, names_text, unknown_param_type,
};
use crate::cpp_templates::{
    bytes_code, bytes_code_text, event_emitter, event_emitter_text, function_declaration,
    function_declaration_text, proxy_method, proxy_method_text,
};
use crate::decimal::{append_decimal, decimal};
use crate::selector::{Selector, selector_bytes, selector_for, selector_value, signature};
use crate::utils::{spec_with_prefix_comma, with_prefix_comma_if_not_empty};

verus! {

/// The signature of an entry: its name and the canonical types of its inputs.
pub open spec fn entry_signature(entry: EntryModel) -> Seq<char> {
    signature(entry.name, canonical_types(entry.inputs))
}

/// The selector bytes of an entry.
pub open spec fn entry_selector_bytes(entry: EntryModel) -> Seq<u8> {
    selector_bytes(entry_signature(entry))
}

/// The selector of an entry as a number.
pub open spec fn entry_selector(entry: EntryModel) -> int {
    selector_value(entry_signature(entry))
}

/// Four bytes in decimal, split by `, `.
pub open spec fn byte_list_text(bytes: Seq<u8>) -> Seq<char> {
    decimal(bytes[0] as nat) + ", "@ + decimal(bytes[1] as nat) + ", "@ + decimal(bytes[2] as nat)
        + ", "@ + decimal(bytes[3] as nat)
}

/// Four bytes as the C++ initializer list of a byte vector.
pub open spec fn byte_vector_text(bytes: Seq<u8>) -> Seq<char> {
    bytes_code_text(
        decimal(bytes[0] as nat),
        decimal(bytes[1] as nat),
        decimal(bytes[2] as nat),
        decimal(bytes[3] as nat),
    )
}

/// The statement that refuses value sent with a call. Every function has it but a
/// payable one, for which it is empty.
pub open spec fn guard_text(mutability: StateMutability) -> Seq<char> {
    if mutability == StateMutability::Payable {
        Seq::empty()
    } else {
        "dtvm::require(dtvm::get_msg_value() == 0, \"not payable method\");"@
    }
}

/// What the contract class holds for a function.
pub open spec fn function_class_text(entry: EntryModel) -> Seq<char> {
    function_declaration_text(
        entry.name,
        arguments_text(entry.inputs),
        spec_with_prefix_comma(arguments_text(entry.inputs)),
        names_text(entry.inputs),
        guard_text(entry.state_mutability),
        decoders_text(entry.inputs),
        spec_with_prefix_comma(decoded_names_text(entry.inputs)),
    )
}

/// What the contract class holds for an event.
pub open spec fn event_class_text(entry: EntryModel) -> Seq<char> {
    event_emitter_text(
        entry.name,
        arguments_text(entry.inputs),
        names_text(entry.inputs),
        byte_list_text(entry_selector_bytes(entry)),
        decimal(entry_selector(entry) as nat),
        entry_signature(entry),
    )
}

/// What the proxy class holds for a function.
pub open spec fn function_proxy_text(entry: EntryModel) -> Seq<char> {
    proxy_method_text(
        entry.name,
        arguments_text(entry.inputs),
        spec_with_prefix_comma(arguments_text(entry.inputs)),
        names_text(entry.inputs),
        spec_with_prefix_comma(names_text(entry.inputs)),
        byte_vector_text(entry_selector_bytes(entry)),
        decimal(entry_selector(entry) as nat),
        entry_signature(entry),
    )
}

/// What the contract class holds for an entry.
pub open spec fn entry_class_text(entry: EntryModel) -> Seq<char> {
    match entry.kind {
        EntryKind::Function => function_class_text(entry),
        EntryKind::Event => event_class_text(entry),
    }
}

/// What the proxy class holds for an entry: a method for a function, nothing for an event.
pub open spec fn entry_proxy_text(entry: EntryModel) -> Seq<char> {
    match entry.kind {
        EntryKind::Function => function_proxy_text(entry),
        EntryKind::Event => Seq::empty(),
    }
}

/// The parameter type of the first of the first `n` entries that has a parameter of an
/// unknown type.
pub open spec fn unknown_entry_type(entries: Seq<EntryModel>, n: nat) -> Option<Seq<char>>
    decreases n,
{
    if n == 0 {
        None
    } else {
        match unknown_entry_type(entries, (n - 1) as nat) {
            Some(declared) => Some(declared),
            None => unknown_param_type(entries[n - 1].inputs, entries[n - 1].inputs.len()),
        }
    }
}

/// Where no unknown type is found among the first `n` entries, none is found in any one
/// of them.
pub proof fn lemma_unknown_entry_type_none(entries: Seq<EntryModel>, n: nat)
    requires
        unknown_entry_type(entries, n) is None,
    ensures
        forall|i: int|
            0 <= i < n ==> unknown_param_type(
                (#[trigger] entries[i]).inputs,
                entries[i].inputs.len(),
            ) is None,
    decreases n,
{
    if n > 0 {
        lemma_unknown_entry_type_none(entries, (n - 1) as nat);
    }
}

/// Once an unknown type is found, it stays the first.
pub proof fn lemma_unknown_entry_type_some(entries: Seq<EntryModel>, n: nat, m: nat)
    requires
        n <= m,
        unknown_entry_type(entries, n) is Some,
    ensures
        unknown_entry_type(entries, m) == unknown_entry_type(entries, n),
    decreases m,
{
    if n < m {
        lemma_unknown_entry_type_some(entries, n, (m - 1) as nat);
    }
}

/// The first parameter type of the entries that is not known, if there is one.
pub fn find_unknown_entry_type(entries: &Vec<AbiEntry>) -> (r: Option<String>)
    ensures
        match r {
            Some(declared) => unknown_entry_type(entries_view(entries@), entries@.len()) == Some(
                declared@,
            ),
            None => unknown_entry_type(entries_view(entries@), entries@.len()) is None,
        },
{
    let ghost models = entries_view(entries@);
    let mut i: usize = 0;
    while i < entries.len()
        invariant
            i <= entries.len(),
            models == entries_view(entries@),
            unknown_entry_type(models, i as nat) is None,
        decreases entries.len() - i,
    {
        assert(models[i as int] == entries@[i as int]@);
        match find_unknown_param_type(&entries[i].inputs) {
            Some(declared) => {
                proof {
                    lemma_unknown_entry_type_some(models, (i + 1) as nat, entries@.len());
                }
                return Some(declared);
            },
            None => {},
        }
        i += 1;
    }
    None
}

/// What was generated for one entry.
pub struct EntryTexts {
    /// The entry's part of the contract class.
    pub class_part: String,
    /// The entry's part of the proxy class.
    pub proxy_part: String,
    /// The entry's selector.
    pub selector: Selector,
}

impl EntryTexts {
    /// The texts and the selector are those of `entry`.
    pub open spec fn describes(self, entry: EntryModel) -> bool {
        &&& self.class_part@ == entry_class_text(entry)
        &&& self.proxy_part@ == entry_proxy_text(entry)
        &&& self.selector.bytes@ == entry_selector_bytes(entry)
        &&& self.selector.value as int == entry_selector(entry)
    }
}

/// The decimal text of a byte.
fn byte_text(byte: u8) -> (text: String)
    ensures
        text@ == decimal(byte as nat),
{
    let mut text = String::new();
    append_decimal(&mut text, byte as u64);
    assert(text@ =~= decimal(byte as nat));
    text
}

/// Writes what is generated for one entry.
pub fn emit_entry(entry: &AbiEntry) -> (texts: EntryTexts)
    requires
        unknown_param_type(entry@.inputs, entry@.inputs.len()) is None,
    ensures
        texts.describes(entry@),
{
    let arguments = ArgumentTexts::of(&entry.inputs);
    let (selector, signature) = selector_for(entry.name.as_str(), &arguments.canonical_types);
    assert(signature@ == entry_signature(entry@));
    let mut selector_text = String::new();
    append_decimal(&mut selector_text, selector.value as u64);
    assert(selector_text@ =~= decimal(entry_selector(entry@) as nat));
    let first = byte_text(selector.bytes[0]);
    let second = byte_text(selector.bytes[1]);
    let third = byte_text(selector.bytes[2]);
    let fourth = byte_text(selector.bytes[3]);
    let name = entry.name.as_str();
    match entry.kind {
        EntryKind::Function => {
            let guard = match entry.state_mutability {
                StateMutability::Payable => "",
                _ => "dtvm::require(dtvm::get_msg_value() == 0, \"not payable method\");",
            };
            proof {
                reveal_strlit("");
                assert(guard@ =~= guard_text(entry@.state_mutability));
            }
            let rest_arguments = with_prefix_comma_if_not_empty(arguments.arguments.as_str());
            let rest_names = with_prefix_comma_if_not_empty(arguments.names.as_str());
            let rest_decoded = with_prefix_comma_if_not_empty(arguments.decoded_names.as_str());
            let class_part = function_declaration(
                name,
                arguments.arguments.as_str(),
                rest_arguments.as_str(),
                arguments.names.as_str(),
                guard,
                arguments.decoders.as_str(),
                rest_decoded.as_str(),
            );
            let code = bytes_code(first.as_str(), second.as_str(), third.as_str(), fourth.as_str());
            let proxy_part = proxy_method(
                name,
                arguments.arguments.as_str(),
                rest_arguments.as_str(),
                arguments.names.as_str(),
                rest_names.as_str(),
                code.as_str(),
                selector_text.as_str(),
                signature.as_str(),
            );
            EntryTexts { class_part, proxy_part, selector }
        },
        EntryKind::Event => {
            let mut topic = first;
            topic.append(", ");
            topic.append(second.as_str());
            topic.append(", ");
            topic.append(third.as_str());
            topic.append(", ");
            topic.append(fourth.as_str());
            let class_part = event_emitter(
                name,
                arguments.arguments.as_str(),
                arguments.names.as_str(),
                topic.as_str(),
                selector_text.as_str(),
                signature.as_str(),
            );
            EntryTexts { class_part, proxy_part: String::new(), selector }
        },
    }
}

} // verus!
