//! The interface of a contract as C++: the contract class with its dispatch methods, the
//! proxy class, and the factory that makes a proxy for an address.

use vstd::prelude::*;
use vstd::string::*;
use crate::abi::{
    AbiDocument, DocumentModel, EntryKind, EntryModel, MetadataError, MetadataFault, SlotModel,
    StorageSlot, entries_view, slots_view,
};
use crate::arguments::unknown_param_type;
use crate::cpp_templates::{
    class_header, class_header_text, dispatch_case_text, dispatch_methods, dispatch_methods_text,
    factory_declaration, factory_declaration_text, factory_definition, factory_definition_text,
    lemma_dispatch_methods_holds_cases, proxy_header, proxy_header_text,
};
use crate::decimal::decimal;
use crate::dispatch::{
    DispatchRow, DispatchTable, case_parts, dispatch_cases_text, distinct_names, lemma_lookup_row,
    lemma_recorded, lookup, recorded,
};
use crate::entries::{
    emit_entry, entry_class_text, entry_proxy_text, entry_selector, entry_selector_bytes,
    find_unknown_entry_type, function_proxy_text, lemma_unknown_entry_type_none,
    unknown_entry_type,
};
use crate::json::JsonValue;
use crate::metadata::{decode_document, decode_storage, storage_layout_from_json};
use crate::selector::be_u32;
use crate::storage_fields::{
    constructor_text, emit_storage, fields_text, find_unknown_slot_type, unknown_slot_type,
};
use crate::text::{
    concat, concat_strings, lemma_concat_part, lemma_occurs_in_add_left, lemma_occurs_in_add_right,
    lemma_occurs_in_self, occurs_in, strings_view,
};

verus! {

/// The text that every generated header starts with.
pub open spec fn preamble() -> Seq<char> {
    "\n#pragma once\n#include \"contractlib/v1/contractlib.hpp\"\n"@
}

/// The dispatch table after the first `n` entries: each function records its selector
/// under its name, so that of two functions of one name the later one stays.
pub open spec fn dispatch_table(entries: Seq<EntryModel>, n: nat) -> Seq<DispatchRow>
    decreases n,
{
    if n == 0 {
        Seq::empty()
    } else {
        let before = dispatch_table(entries, (n - 1) as nat);
        let entry = entries[n - 1];
        match entry.kind {
            EntryKind::Function => recorded(before, entry.name, entry_selector(entry)),
            EntryKind::Event => before,
        }
    }
}

/// What the contract class holds for each entry, in the order of the entries.
pub open spec fn entry_class_parts(entries: Seq<EntryModel>) -> Seq<Seq<char>> {
    Seq::new(entries.len(), |i: int| entry_class_text(entries[i]))
}

/// What the proxy class holds for each entry, in the order of the entries.
pub open spec fn entry_proxy_parts(entries: Seq<EntryModel>) -> Seq<Seq<char>> {
    Seq::new(entries.len(), |i: int| entry_proxy_text(entries[i]))
}

/// The contract class: what each entry declares, in the order of the document, then the
/// storage fields and their constructor, the declaration of the factory, and the dispatch
/// methods.
pub open spec fn class_text(document: DocumentModel, slots: Seq<SlotModel>) -> Seq<char> {
    class_header_text(document.contract_name) + concat(entry_class_parts(document.entries))
        + fields_text(slots) + constructor_text(document.contract_name, slots)
        + factory_declaration_text(document.contract_name) + dispatch_methods_text(
        dispatch_cases_text(dispatch_table(document.entries, document.entries.len())),
    ) + "};\n"@
}

/// The proxy class: what each entry defines, in the order of the document.
pub open spec fn proxy_text(document: DocumentModel) -> Seq<char> {
    proxy_header_text(document.contract_name) + concat(entry_proxy_parts(document.entries))
        + "};\n"@
}

/// The definition of the factory.
pub open spec fn factory_text(document: DocumentModel) -> Seq<char> {
    factory_definition_text(document.contract_name)
}

/// The first type that is not known: a parameter type of the entries, in their order, or
/// else the tag that stops the translation of a storage type of the layout.
pub open spec fn unknown_type(document: DocumentModel, slots: Seq<SlotModel>) -> Option<
    Seq<char>,
> {
    match unknown_entry_type(document.entries, document.entries.len()) {
        Some(declared) => Some(declared),
        None => unknown_slot_type(slots, slots.len()),
    }
}

/// No name stands twice in the dispatch table.
pub proof fn lemma_dispatch_table_distinct(entries: Seq<EntryModel>, n: nat)
    ensures
        distinct_names(dispatch_table(entries, n)),
    decreases n,
{
    if n > 0 {
        lemma_dispatch_table_distinct(entries, (n - 1) as nat);
        let entry = entries[n - 1];
        lemma_recorded(
            dispatch_table(entries, (n - 1) as nat),
            entry.name,
            entry_selector(entry),
            entry.name,
        );
    }
}

/// A function that no later function of the first `n` entries shares its name with has
/// its own selector in the dispatch table.
pub proof fn lemma_dispatch_table_keeps_last(entries: Seq<EntryModel>, i: int, n: nat)
    requires
        0 <= i < n <= entries.len(),
        entries[i].kind == EntryKind::Function,
        forall|j: int|
            i < j < n && (#[trigger] entries[j]).kind == EntryKind::Function ==> entries[j].name
                != entries[i].name,
    ensures
        lookup(dispatch_table(entries, n), entries[i].name) == Some(entry_selector(entries[i])),
    decreases n,
{
    let before = dispatch_table(entries, (n - 1) as nat);
    let entry = entries[n - 1];
    lemma_dispatch_table_distinct(entries, (n - 1) as nat);
    if n == i + 1 {
        lemma_recorded(before, entry.name, entry_selector(entry), entry.name);
    } else {
        lemma_dispatch_table_keeps_last(entries, i, (n - 1) as nat);
        if entry.kind == EntryKind::Function {
            lemma_recorded(before, entry.name, entry_selector(entry), entries[i].name);
        }
    }
}

/// Every row of the dispatch table has its case in the contract class.
pub proof fn lemma_case_in_class(document: DocumentModel, slots: Seq<SlotModel>, k: int)
    requires
        0 <= k < dispatch_table(document.entries, document.entries.len()).len(),
    ensures
        occurs_in(
            class_text(document, slots),
            dispatch_case_text(
                decimal(
                    dispatch_table(document.entries, document.entries.len())[k].selector as nat,
                ),
                dispatch_table(document.entries, document.entries.len())[k].name,
            ),
        ),
{
    let rows = dispatch_table(document.entries, document.entries.len());
    let case = dispatch_case_text(decimal(rows[k].selector as nat), rows[k].name);
    lemma_concat_part(case_parts(rows), k);
    lemma_dispatch_methods_holds_cases(dispatch_cases_text(rows), case);
    let text = class_header_text(document.contract_name) + concat(
        entry_class_parts(document.entries),
    ) + fields_text(slots) + constructor_text(document.contract_name, slots)
        + factory_declaration_text(document.contract_name);
    lemma_occurs_in_add_right(text, dispatch_methods_text(dispatch_cases_text(rows)), case);
    lemma_occurs_in_add_left(
        text + dispatch_methods_text(dispatch_cases_text(rows)),
        "};\n"@,
        case,
    );
}

/// The contract class holds the storage fields and, behind them, the constructor that
/// sets them up.
pub proof fn lemma_storage_in_class(document: DocumentModel, slots: Seq<SlotModel>)
    ensures
        occurs_in(class_text(document, slots), fields_text(slots)),
        occurs_in(class_text(document, slots), constructor_text(document.contract_name, slots)),
{
    let fields = fields_text(slots);
    let constructor = constructor_text(document.contract_name, slots);
    let declaration = factory_declaration_text(document.contract_name);
    let dispatch = dispatch_methods_text(
        dispatch_cases_text(dispatch_table(document.entries, document.entries.len())),
    );
    let text = class_header_text(document.contract_name) + concat(
        entry_class_parts(document.entries),
    );
    lemma_occurs_in_self(fields);
    lemma_occurs_in_add_right(text, fields, fields);
    lemma_occurs_in_add_left(text + fields, constructor, fields);
    lemma_occurs_in_self(constructor);
    lemma_occurs_in_add_right(text + fields, constructor, constructor);
    let text = text + fields + constructor;
    lemma_occurs_in_add_left(text, declaration, fields);
    lemma_occurs_in_add_left(text, declaration, constructor);
    lemma_occurs_in_add_left(text + declaration, dispatch, fields);
    lemma_occurs_in_add_left(text + declaration, dispatch, constructor);
    lemma_occurs_in_add_left(text + declaration + dispatch, "};\n"@, fields);
    lemma_occurs_in_add_left(text + declaration + dispatch, "};\n"@, constructor);
}

/// Every function has its method in the proxy class.
pub proof fn lemma_method_in_proxy(document: DocumentModel, i: int)
    requires
        0 <= i < document.entries.len(),
        document.entries[i].kind == EntryKind::Function,
    ensures
        occurs_in(proxy_text(document), function_proxy_text(document.entries[i])),
{
    let method = function_proxy_text(document.entries[i]);
    lemma_concat_part(entry_proxy_parts(document.entries), i);
    lemma_occurs_in_add_right(
        proxy_header_text(document.contract_name),
        concat(entry_proxy_parts(document.entries)),
        method,
    );
    lemma_occurs_in_add_left(
        proxy_header_text(document.contract_name) + concat(entry_proxy_parts(document.entries)),
        "};\n"@,
        method,
    );
}

/// Dispatch and proxy agree on the selector of a function. The proxy class holds the
/// function's method, which sends the selector bytes of the function's signature; the
/// number that these bytes write is the function's selector; and, where no later
/// function has the same name, the contract class holds the case that takes this
/// selector to the function's dispatch helper.
pub proof fn lemma_dispatch_round_trip(document: DocumentModel, slots: Seq<SlotModel>, i: int)
    requires
        0 <= i < document.entries.len(),
        document.entries[i].kind == EntryKind::Function,
    ensures
        occurs_in(proxy_text(document), function_proxy_text(document.entries[i])),
        entry_selector(document.entries[i]) == be_u32(entry_selector_bytes(document.entries[i])),
        (forall|j: int|
            i < j < document.entries.len() && (#[trigger] document.entries[j]).kind
                == EntryKind::Function ==> document.entries[j].name != document.entries[i].name)
            ==> {
            &&& lookup(
                dispatch_table(document.entries, document.entries.len()),
                document.entries[i].name,
            ) == Some(entry_selector(document.entries[i]))
            &&& occurs_in(
                class_text(document, slots),
                dispatch_case_text(
                    decimal(entry_selector(document.entries[i]) as nat),
                    document.entries[i].name,
                ),
            )
        },
{
    let entries = document.entries;
    lemma_method_in_proxy(document, i);
    if forall|j: int|
        i < j < entries.len() && (#[trigger] entries[j]).kind == EntryKind::Function
            ==> entries[j].name != entries[i].name {
        lemma_dispatch_table_keeps_last(entries, i, entries.len());
        let k = lemma_lookup_row(dispatch_table(entries, entries.len()), entries[i].name);
        lemma_case_in_class(document, slots, k);
    }
}

/// The generated interface of one contract.
pub struct GeneratedInterface {
    /// The contract class.
    pub base_class: String,
    /// The proxy class.
    pub proxy_class: String,
    /// The definition of the factory, which follows the proxy class.
    pub factory: String,
}

impl GeneratedInterface {
    /// The interface is the one of `document` with the storage layout `slots`.
    pub open spec fn describes(self, document: DocumentModel, slots: Seq<SlotModel>) -> bool {
        &&& self.base_class@ == class_text(document, slots)
        &&& self.proxy_class@ == proxy_text(document)
        &&& self.factory@ == factory_text(document)
    }
}

/// The first type of the document or the layout that is not known, if there is one.
pub fn find_unknown_type(document: &AbiDocument, slots: &Vec<StorageSlot>) -> (r: Option<String>)
    ensures
        match r {
            Some(name) => unknown_type(document@, slots_view(slots@)) == Some(name@),
            None => unknown_type(document@, slots_view(slots@)) is None,
        },
{
    match find_unknown_entry_type(&document.entries) {
        Some(declared) => Some(declared),
        None => find_unknown_slot_type(slots),
    }
}

/// Generates the interface of a contract from its ABI document and its storage layout.
pub fn emit(document: &AbiDocument, slots: &Vec<StorageSlot>) -> (interface: GeneratedInterface)
    requires
        unknown_type(document@, slots_view(slots@)) is None,
    ensures
        interface.describes(document@, slots_view(slots@)),
{
    let ghost entries = entries_view(document.entries@);
    let class_name = document.contract_name.as_str();
    let mut table = DispatchTable::new();
    let mut class_parts: Vec<String> = Vec::new();
    let mut proxy_parts: Vec<String> = Vec::new();
    proof {
        lemma_unknown_entry_type_none(entries, entries.len());
    }
    let mut i: usize = 0;
    while i < document.entries.len()
        invariant
            i <= document.entries.len(),
            entries == entries_view(document.entries@),
            forall|j: int|
                0 <= j < entries.len() ==> unknown_param_type(
                    (#[trigger] entries[j]).inputs,
                    entries[j].inputs.len(),
                ) is None,
            table.wf(),
            table@ == dispatch_table(entries, i as nat),
            class_parts@.len() == i,
            proxy_parts@.len() == i,
            forall|j: int| 0 <= j < i ==> (#[trigger] class_parts@[j])@ == entry_class_text(entries[j]),
            forall|j: int| 0 <= j < i ==> (#[trigger] proxy_parts@[j])@ == entry_proxy_text(entries[j]),
        decreases document.entries.len() - i,
    {
        let entry = &document.entries[i];
        assert(entries[i as int] == entry@);
        let texts = emit_entry(entry);
        match entry.kind {
            EntryKind::Function => {
                table.record(entry.name.as_str(), texts.selector.value);
            },
            EntryKind::Event => {},
        }
        class_parts.push(texts.class_part);
        proxy_parts.push(texts.proxy_part);
        i += 1;
    }
    proof {
        assert(strings_view(class_parts@) =~= entry_class_parts(entries));
        assert(strings_view(proxy_parts@) =~= entry_proxy_parts(entries));
    }
    let storage = emit_storage(class_name, slots);
    let mut base_class = class_header(class_name);
    base_class.append(concat_strings(&class_parts).as_str());
    base_class.append(storage.fields.as_str());
    base_class.append(storage.constructor.as_str());
    // the factory is defined after the proxy class, which it names
    base_class.append(factory_declaration(class_name).as_str());
    base_class.append(dispatch_methods(table.cases().as_str()).as_str());
    base_class.append("};\n");
    let mut proxy_class = proxy_header(class_name);
    proxy_class.append(concat_strings(&proxy_parts).as_str());
    proxy_class.append("};\n");
    GeneratedInterface { base_class, proxy_class, factory: factory_definition(class_name) }
}

/// The document and the storage layout that two metadata values hold; the layout is empty
/// where none is given.
pub open spec fn decode_inputs(metadata: JsonValue, storage: Option<JsonValue>) -> Result<
    (DocumentModel, Seq<SlotModel>),
    MetadataFault,
> {
    match decode_document(metadata) {
        Err(fault) => Err(fault),
        Ok(document) => match storage {
            None => Ok((document, Seq::empty())),
            Some(storage) => match decode_storage(storage) {
                Err(fault) => Err(fault),
                Ok(slots) => Ok((document, slots)),
            },
        },
    }
}

/// The document and the layout, or the error of the first type of theirs that is not
/// known.
pub open spec fn checked_inputs(document: DocumentModel, slots: Seq<SlotModel>) -> Result<
    (DocumentModel, Seq<SlotModel>),
    MetadataFault,
> {
    match unknown_type(document, slots) {
        Some(name) => Err(MetadataFault::UnknownType(name)),
        None => Ok((document, slots)),
    }
}

/// What metadata is accepted as: the document and layout it holds, where it is well
/// formed and all its types are known.
pub open spec fn accepted_inputs(metadata: JsonValue, storage: Option<JsonValue>) -> Result<
    (DocumentModel, Seq<SlotModel>),
    MetadataFault,
> {
    match decode_inputs(metadata, storage) {
        Err(fault) => Err(fault),
        Ok((document, slots)) => checked_inputs(document, slots),
    }
}

/// The value behind an optional reference.
pub open spec fn referred(storage: Option<&JsonValue>) -> Option<JsonValue> {
    match storage {
        Some(storage) => Some(*storage),
        None => None,
    }
}

/// Collects the generated interfaces of one header file.
pub struct SolHppWriter {
    buf: String,
}

impl View for SolHppWriter {
    type V = Seq<char>;

    closed spec fn view(&self) -> Seq<char> {
        self.buf@
    }
}

impl Default for SolHppWriter {
    fn default() -> (writer: Self)
        ensures
            writer@ == preamble(),
    {
        Self::new()
    }
}

impl SolHppWriter {
    /// A writer that holds the preamble and nothing else.
    pub fn new() -> (writer: Self)
        ensures
            writer@ == preamble(),
    {
        SolHppWriter {
            buf: String::from_str("\n#pragma once\n#include \"contractlib/v1/contractlib.hpp\"\n"),
        }
    }

    /// The text collected so far.
    pub fn contents(&self) -> (text: &str)
        ensures
            text@ == self@,
    {
        self.buf.as_str()
    }

    /// Adds a generated interface at the end: the contract class, the proxy class, the
    /// factory.
    pub fn add_generated(&mut self, interface: &GeneratedInterface)
        ensures
            final(self)@ == old(self)@ + interface.base_class@ + interface.proxy_class@
                + interface.factory@,
    {
        self.buf.append(interface.base_class.as_str());
        self.buf.append(interface.proxy_class.as_str());
        self.buf.append(interface.factory.as_str());
    }

    /// Generates the interface of a contract and adds it at the end. Where a type of the
    /// document or the layout is not known, nothing is added and the error names the type.
    pub fn add_interface(&mut self, document: &AbiDocument, slots: &Vec<StorageSlot>) -> (r: Result<
        (),
        MetadataError,
    >)
        ensures
            match r {
                Ok(()) => {
                    &&& unknown_type(document@, slots_view(slots@)) is None
                    &&& final(self)@ == old(self)@ + class_text(document@, slots_view(slots@))
                        + proxy_text(document@) + factory_text(document@)
                },
                Err(error) => {
                    &&& unknown_type(document@, slots_view(slots@)) matches Some(name)
                    &&& error@ == MetadataFault::UnknownType(name)
                    &&& final(self)@ == old(self)@
                },
            },
    {
        match find_unknown_type(document, slots) {
            Some(name) => Err(MetadataError::UnknownType(name)),
            None => {
                let interface = emit(document, slots);
                self.add_generated(&interface);
                Ok(())
            },
        }
    }

    /// Reads the metadata of a contract, and its storage layout where there is one,
    /// generates the interface and adds it at the end. Where the metadata is refused,
    /// nothing is added.
    pub fn add_solidity_interface(&mut self, metadata: &JsonValue, storage: Option<&JsonValue>) -> (r:
        Result<(), MetadataError>)
        ensures
            match r {
                Ok(()) => {
                    &&& accepted_inputs(*metadata, referred(storage)) matches Ok((document, slots))
                    &&& final(self)@ == old(self)@ + class_text(document, slots) + proxy_text(
                        document,
                    ) + factory_text(document)
                },
                Err(error) => {
                    &&& accepted_inputs(*metadata, referred(storage)) matches Err(fault)
                    &&& error@ == fault
                    &&& final(self)@ == old(self)@
                },
            },
    {
        let document = match AbiDocument::from_json(metadata) {
            Ok(document) => document,
            Err(error) => {
                return Err(error);
            },
        };
        let slots = match storage {
            Some(storage) => match storage_layout_from_json(storage) {
                Ok(slots) => slots,
                Err(error) => {
                    return Err(error);
                },
            },
            None => Vec::new(),
        };
        assert(slots_view(Seq::<StorageSlot>::empty()) =~= Seq::<SlotModel>::empty());
        self.add_interface(&document, &slots)
    }
}

} // verus!
