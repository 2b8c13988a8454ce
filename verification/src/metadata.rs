//! Reading compiler metadata: from JSON values to ABI documents and storage layouts.
//!
//! The metadata of a contract is `{ settings: { compilationTarget: { <path>: <name> } },
//! output: { abi: [ .. ] } }`; its storage layout is `{ storage: [ .. ] }`.

use vstd::prelude::*;
use vstd::string::*;
use crate::abi::{
    AbiDocument, AbiEntry, AbiParam, DocumentModel, EntryKind, EntryModel, Field, MetadataError,
    MetadataFault, ParamModel, SlotModel, StateMutability, StorageSlot, entries_view, params_view,
    slots_view,
};
use crate::decimal::{parse_i32, spec_parse_i32};
use crate::json::JsonValue;
use crate::text::str_eq;

verus! {

/// The first `n` of `items` decoded by `each`: the decoded values where each of them
/// decodes, else the error of the first that does not.
pub open spec fn decode_first<T>(
    items: Seq<JsonValue>,
    each: spec_fn(JsonValue) -> Result<T, MetadataFault>,
    n: nat,
) -> Result<Seq<T>, MetadataFault>
    decreases n,
{
    if n == 0 {
        Ok(Seq::empty())
    } else {
        match decode_first(items, each, (n - 1) as nat) {
            Err(fault) => Err(fault),
            Ok(done) => match each(items[n - 1]) {
                Err(fault) => Err(fault),
                Ok(value) => Ok(done.push(value)),
            },
        }
    }
}

/// All of `items` decoded by `each`.
pub open spec fn decode_each<T>(
    items: Seq<JsonValue>,
    each: spec_fn(JsonValue) -> Result<T, MetadataFault>,
) -> Result<Seq<T>, MetadataFault> {
    decode_first(items, each, items.len())
}

/// Once an item has failed, the error stays whatever follows.
pub proof fn lemma_decode_first_error<T>(
    items: Seq<JsonValue>,
    each: spec_fn(JsonValue) -> Result<T, MetadataFault>,
    n: nat,
    m: nat,
)
    requires
        n <= m,
        decode_first(items, each, n) is Err,
    ensures
        decode_first(items, each, m) == decode_first(items, each, n),
    decreases m,
{
    if n < m {
        lemma_decode_first_error(items, each, n, (m - 1) as nat);
    }
}

/// Where all items decode, there is one value for each item, in order.
pub proof fn lemma_decode_first_ok<T>(
    items: Seq<JsonValue>,
    each: spec_fn(JsonValue) -> Result<T, MetadataFault>,
    n: nat,
)
    requires
        decode_first(items, each, n) is Ok,
    ensures
        decode_first(items, each, n)->Ok_0.len() == n,
        forall|i: int|
            0 <= i < n ==> each(items[i]) == Ok::<T, MetadataFault>(
                #[trigger] decode_first(items, each, n)->Ok_0[i],
            ),
    decreases n,
{
    if n > 0 {
        lemma_decode_first_ok(items, each, (n - 1) as nat);
    }
}

/// The items of the member `key`, where it is a list; no items otherwise.
pub open spec fn list_member(json: JsonValue, key: Seq<char>) -> Seq<JsonValue> {
    match json.member(key) {
        Some(value) => match value.items() {
            Some(items) => items,
            None => Seq::empty(),
        },
        None => Seq::empty(),
    }
}

/// The text of the member `key`, where it is a text; the empty text otherwise.
pub open spec fn text_or_empty(json: JsonValue, key: Seq<char>) -> Seq<char> {
    match json.text_member(key) {
        Some(text) => text,
        None => Seq::empty(),
    }
}

/// A parameter of an entry's inputs: `internalType`, `type` and `name` must be texts.
pub open spec fn decode_param(json: JsonValue) -> Result<ParamModel, MetadataFault> {
    match json.text_member("internalType"@) {
        None => Err(MetadataFault::MissingField(Field::ParamInternalType)),
        Some(canonical_type) => match json.text_member("type"@) {
            None => Err(MetadataFault::MissingField(Field::ParamType)),
            Some(declared_type) => match json.text_member("name"@) {
                None => Err(MetadataFault::MissingField(Field::ParamName)),
                Some(name) => Ok(ParamModel { name, declared_type, canonical_type }),
            },
        },
    }
}

/// `decode_param`, as a value.
pub open spec fn param_decoder() -> spec_fn(JsonValue) -> Result<ParamModel, MetadataFault> {
    |json: JsonValue| decode_param(json)
}

/// A parameter of an entry's outputs, of which nothing is demanded.
pub open spec fn output_param(json: JsonValue) -> ParamModel {
    ParamModel {
        name: text_or_empty(json, "name"@),
        declared_type: text_or_empty(json, "type"@),
        canonical_type: text_or_empty(json, "internalType"@),
    }
}

/// The kind that the `type` of an entry names.
pub open spec fn entry_kind(kind: Seq<char>) -> Option<EntryKind> {
    if kind == "function"@ {
        Some(EntryKind::Function)
    } else if kind == "event"@ {
        Some(EntryKind::Event)
    } else {
        None
    }
}

/// The state mutability that the `stateMutability` of an entry names, if it has one.
pub open spec fn state_mutability(text: Option<Seq<char>>) -> StateMutability {
    match text {
        Some(text) => if text == "payable"@ {
            StateMutability::Payable
        } else if text == "nonpayable"@ {
            StateMutability::NonPayable
        } else {
            StateMutability::Unspecified
        },
        None => StateMutability::Unspecified,
    }
}

/// An entry of the ABI: `name` and `type` must be texts, the inputs must decode, and the
/// type must name a function or an event.
pub open spec fn decode_entry(json: JsonValue) -> Result<EntryModel, MetadataFault> {
    match json.text_member("name"@) {
        None => Err(MetadataFault::MissingField(Field::EntryName)),
        Some(name) => match json.text_member("type"@) {
            None => Err(MetadataFault::MissingField(Field::EntryKind)),
            Some(kind_text) => match decode_each(list_member(json, "inputs"@), param_decoder()) {
                Err(fault) => Err(fault),
                Ok(inputs) => match entry_kind(kind_text) {
                    None => Err(MetadataFault::InvalidEntryKind(kind_text)),
                    Some(kind) => Ok(
                        EntryModel {
                            name,
                            kind,
                            state_mutability: state_mutability(json.text_member("stateMutability"@)),
                            inputs,
                            outputs: list_member(json, "outputs"@).map_values(
                                |output: JsonValue| output_param(output),
                            ),
                        },
                    ),
                },
            },
        },
    }
}

/// `decode_entry`, as a value.
pub open spec fn entry_decoder() -> spec_fn(JsonValue) -> Result<EntryModel, MetadataFault> {
    |json: JsonValue| decode_entry(json)
}

/// The contract's name: the value of the first member of `settings.compilationTarget`.
pub open spec fn compilation_target(json: JsonValue) -> Option<Seq<char>> {
    match json.member("settings"@) {
        Some(settings) => match settings.member("compilationTarget"@) {
            Some(target) => match target.members() {
                Some(members) => if members.len() > 0 {
                    members[0].1.text()
                } else {
                    None
                },
                None => None,
            },
            None => None,
        },
        None => None,
    }
}

/// The entries of `output.abi`, where that is a list.
pub open spec fn abi_items(json: JsonValue) -> Option<Seq<JsonValue>> {
    match json.member("output"@) {
        Some(output) => match output.member("abi"@) {
            Some(abi) => abi.items(),
            None => None,
        },
        None => None,
    }
}

/// The ABI document that a metadata value holds.
pub open spec fn decode_document(json: JsonValue) -> Result<DocumentModel, MetadataFault> {
    match compilation_target(json) {
        None => Err(MetadataFault::MissingField(Field::CompilationTarget)),
        Some(contract_name) => match abi_items(json) {
            None => Err(MetadataFault::MissingField(Field::Abi)),
            Some(items) => match decode_each(items, entry_decoder()) {
                Err(fault) => Err(fault),
                Ok(entries) => Ok(DocumentModel { contract_name, entries }),
            },
        },
    }
}

/// The number of the member `key`, where it is an integer.
pub open spec fn integer_member(json: JsonValue, key: Seq<char>) -> Option<i64> {
    match json.member(key) {
        Some(value) => value.integer(),
        None => None,
    }
}

/// A slot of the storage layout: `label` and `type` must be texts, `slot` a text that
/// writes a 32-bit number, `offset` an integer, of which the low 32 bits are kept.
pub open spec fn decode_slot(json: JsonValue) -> Result<SlotModel, MetadataFault> {
    match json.text_member("label"@) {
        None => Err(MetadataFault::MissingField(Field::Label)),
        Some(label) => match json.text_member("slot"@) {
            None => Err(MetadataFault::MissingField(Field::Slot)),
            Some(slot_text) => match spec_parse_i32(slot_text) {
                None => Err(MetadataFault::MissingField(Field::Slot)),
                Some(slot) => match integer_member(json, "offset"@) {
                    None => Err(MetadataFault::MissingField(Field::Offset)),
                    Some(offset) => match json.text_member("type"@) {
                        None => Err(MetadataFault::MissingField(Field::StorageType)),
                        Some(storage_type) => Ok(
                            SlotModel {
                                label,
                                slot: slot as int,
                                byte_offset: (offset as u32) as int,
                                storage_type,
                            },
                        ),
                    },
                },
            },
        },
    }
}

/// `decode_slot`, as a value.
pub open spec fn slot_decoder() -> spec_fn(JsonValue) -> Result<SlotModel, MetadataFault> {
    |json: JsonValue| decode_slot(json)
}

/// The storage layout that a value holds: the slots of its `storage` list.
pub open spec fn decode_storage(json: JsonValue) -> Result<Seq<SlotModel>, MetadataFault> {
    match json.member("storage"@) {
        Some(storage) => match storage.items() {
            Some(items) => decode_each(items, slot_decoder()),
            None => Err(MetadataFault::MissingField(Field::Storage)),
        },
        None => Err(MetadataFault::MissingField(Field::Storage)),
    }
}

/// What the decoding of a parameter list gave, as models.
pub open spec fn params_result(r: Result<Vec<AbiParam>, MetadataError>) -> Result<
    Seq<ParamModel>,
    MetadataFault,
> {
    match r {
        Ok(params) => Ok(params_view(params@)),
        Err(error) => Err(error@),
    }
}

/// What the decoding of an entry gave, as a model.
pub open spec fn entry_result(r: Result<AbiEntry, MetadataError>) -> Result<
    EntryModel,
    MetadataFault,
> {
    match r {
        Ok(entry) => Ok(entry@),
        Err(error) => Err(error@),
    }
}

/// What the decoding of a document gave, as a model.
pub open spec fn document_result(r: Result<AbiDocument, MetadataError>) -> Result<
    DocumentModel,
    MetadataFault,
> {
    match r {
        Ok(document) => Ok(document@),
        Err(error) => Err(error@),
    }
}

/// What the decoding of a slot gave, as a model.
pub open spec fn slot_result(r: Result<StorageSlot, MetadataError>) -> Result<
    SlotModel,
    MetadataFault,
> {
    match r {
        Ok(slot) => Ok(slot@),
        Err(error) => Err(error@),
    }
}

/// What the decoding of a storage layout gave, as models.
pub open spec fn storage_result(r: Result<Vec<StorageSlot>, MetadataError>) -> Result<
    Seq<SlotModel>,
    MetadataFault,
> {
    match r {
        Ok(slots) => Ok(slots_view(slots@)),
        Err(error) => Err(error@),
    }
}

/// A copy of the text of the member `key`, or the empty text.
fn text_or_empty_of(json: &JsonValue, key: &str) -> (text: String)
    ensures
        text@ == text_or_empty(*json, key@),
{
    match json.get_str(key) {
        Some(text) => String::from_str(text),
        None => String::new(),
    }
}

/// The items of the member `key`, where it is a list.
fn list_member_of<'a>(json: &'a JsonValue, key: &str) -> (items: Option<&'a Vec<JsonValue>>)
    ensures
        match items {
            Some(items) => list_member(*json, key@) == items@,
            None => list_member(*json, key@) == Seq::<JsonValue>::empty(),
        },
{
    match json.get(key) {
        Some(value) => value.as_array(),
        None => None,
    }
}

impl AbiParam {
    /// Reads one input parameter.
    pub fn from_json(json: &JsonValue) -> (r: Result<AbiParam, MetadataError>)
        ensures
            match r {
                Ok(param) => decode_param(*json) == Ok::<ParamModel, MetadataFault>(param@),
                Err(error) => decode_param(*json) == Err::<ParamModel, MetadataFault>(error@),
            },
    {
        let canonical_type = match json.get_str("internalType") {
            Some(text) => String::from_str(text),
            None => {
                return Err(MetadataError::MissingField(Field::ParamInternalType));
            },
        };
        let declared_type = match json.get_str("type") {
            Some(text) => String::from_str(text),
            None => {
                return Err(MetadataError::MissingField(Field::ParamType));
            },
        };
        let name = match json.get_str("name") {
            Some(text) => String::from_str(text),
            None => {
                return Err(MetadataError::MissingField(Field::ParamName));
            },
        };
        Ok(AbiParam { name, declared_type, canonical_type })
    }

    /// Reads one output parameter; what is absent is left empty.
    pub fn output_from_json(json: &JsonValue) -> (param: AbiParam)
        ensures
            param@ == output_param(*json),
    {
        AbiParam {
            name: text_or_empty_of(json, "name"),
            declared_type: text_or_empty_of(json, "type"),
            canonical_type: text_or_empty_of(json, "internalType"),
        }
    }
}

/// Reads the input parameters of an entry, in order.
pub fn params_from_json(items: &Vec<JsonValue>) -> (r: Result<Vec<AbiParam>, MetadataError>)
    ensures
        params_result(r) == decode_each(items@, param_decoder()),
{
    let mut params: Vec<AbiParam> = Vec::new();
    let mut i: usize = 0;
    assert(params_view(params@) =~= Seq::<ParamModel>::empty());
    while i < items.len()
        invariant
            i <= items.len(),
            decode_first(items@, param_decoder(), i as nat) == Ok::<Seq<ParamModel>, MetadataFault>(
                params_view(params@),
            ),
        decreases items.len() - i,
    {
        match AbiParam::from_json(&items[i]) {
            Ok(param) => {
                proof {
                    assert(params_view(params@.push(param)) =~= params_view(params@).push(param@));
                }
                params.push(param);
            },
            Err(error) => {
                proof {
                    lemma_decode_first_error(
                        items@,
                        param_decoder(),
                        (i + 1) as nat,
                        items@.len(),
                    );
                }
                return Err(error);
            },
        }
        i += 1;
    }
    Ok(params)
}

/// Reads the output parameters of an entry, in order.
fn outputs_from_json(items: &Vec<JsonValue>) -> (params: Vec<AbiParam>)
    ensures
        params_view(params@) == items@.map_values(|output: JsonValue| output_param(output)),
{
    let mut params: Vec<AbiParam> = Vec::new();
    let mut i: usize = 0;
    while i < items.len()
        invariant
            i <= items.len(),
            params@.len() == i,
            forall|j: int| 0 <= j < i ==> (#[trigger] params@[j])@ == output_param(items@[j]),
        decreases items.len() - i,
    {
        params.push(AbiParam::output_from_json(&items[i]));
        i += 1;
    }
    assert(params_view(params@) =~= items@.map_values(|output: JsonValue| output_param(output)));
    params
}

impl EntryKind {
    /// The kind that a `type` text names.
    pub fn from_name(name: &str) -> (kind: Option<EntryKind>)
        ensures
            kind == entry_kind(name@),
    {
        if str_eq(name, "function") {
            Some(EntryKind::Function)
        } else if str_eq(name, "event") {
            Some(EntryKind::Event)
        } else {
            None
        }
    }
}

impl StateMutability {
    /// The state mutability that a `stateMutability` text names.
    pub fn from_name(name: Option<&str>) -> (mutability: StateMutability)
        ensures
            mutability == state_mutability(
                match name {
                    Some(name) => Some(name@),
                    None => None,
                },
            ),
    {
        match name {
            Some(name) => {
                if str_eq(name, "payable") {
                    StateMutability::Payable
                } else if str_eq(name, "nonpayable") {
                    StateMutability::NonPayable
                } else {
                    StateMutability::Unspecified
                }
            },
            None => StateMutability::Unspecified,
        }
    }
}

impl AbiEntry {
    /// Reads one entry of the ABI.
    pub fn from_json(json: &JsonValue) -> (r: Result<AbiEntry, MetadataError>)
        ensures
            entry_result(r) == decode_entry(*json),
    {
        let name = match json.get_str("name") {
            Some(text) => String::from_str(text),
            None => {
                return Err(MetadataError::MissingField(Field::EntryName));
            },
        };
        let kind_text = match json.get_str("type") {
            Some(text) => text,
            None => {
                return Err(MetadataError::MissingField(Field::EntryKind));
            },
        };
        let inputs = match list_member_of(json, "inputs") {
            Some(items) => match params_from_json(items) {
                Ok(inputs) => inputs,
                Err(error) => {
                    return Err(error);
                },
            },
            None => Vec::new(),
        };
        let kind = match EntryKind::from_name(kind_text) {
            Some(kind) => kind,
            None => {
                return Err(MetadataError::InvalidEntryKind(String::from_str(kind_text)));
            },
        };
        let state_mutability = StateMutability::from_name(json.get_str("stateMutability"));
        let outputs = match list_member_of(json, "outputs") {
            Some(items) => outputs_from_json(items),
            None => Vec::new(),
        };
        proof {
            assert(params_view(Seq::<AbiParam>::empty()) =~= Seq::<ParamModel>::empty());
            assert(Seq::<JsonValue>::empty().map_values(|output: JsonValue| output_param(output))
                =~= Seq::<ParamModel>::empty());
        }
        Ok(AbiEntry { name, kind, state_mutability, inputs, outputs })
    }
}

/// Reads the entries of an ABI, in order.
pub fn entries_from_json(items: &Vec<JsonValue>) -> (r: Result<Vec<AbiEntry>, MetadataError>)
    ensures
        match r {
            Ok(entries) => decode_each(items@, entry_decoder()) == Ok::<
                Seq<EntryModel>,
                MetadataFault,
            >(entries_view(entries@)),
            Err(error) => decode_each(items@, entry_decoder()) == Err::<
                Seq<EntryModel>,
                MetadataFault,
            >(error@),
        },
{
    let mut entries: Vec<AbiEntry> = Vec::new();
    let mut i: usize = 0;
    assert(entries_view(entries@) =~= Seq::<EntryModel>::empty());
    while i < items.len()
        invariant
            i <= items.len(),
            decode_first(items@, entry_decoder(), i as nat) == Ok::<Seq<EntryModel>, MetadataFault>(
                entries_view(entries@),
            ),
        decreases items.len() - i,
    {
        match AbiEntry::from_json(&items[i]) {
            Ok(entry) => {
                proof {
                    assert(entries_view(entries@.push(entry)) =~= entries_view(entries@).push(
                        entry@,
                    ));
                }
                entries.push(entry);
            },
            Err(error) => {
                proof {
                    lemma_decode_first_error(
                        items@,
                        entry_decoder(),
                        (i + 1) as nat,
                        items@.len(),
                    );
                }
                return Err(error);
            },
        }
        i += 1;
    }
    Ok(entries)
}

/// The contract's name in a metadata value.
pub fn compilation_target_of(json: &JsonValue) -> (name: Option<&str>)
    ensures
        match name {
            Some(name) => compilation_target(*json) == Some(name@),
            None => compilation_target(*json) is None,
        },
{
    let settings = match json.get("settings") {
        Some(settings) => settings,
        None => {
            return None;
        },
    };
    let target = match settings.get("compilationTarget") {
        Some(target) => target,
        None => {
            return None;
        },
    };
    match target.as_object() {
        Some(members) => {
            if members.len() > 0 {
                members[0].1.as_str()
            } else {
                None
            }
        },
        None => None,
    }
}

/// The entries of `output.abi` in a metadata value.
fn abi_items_of(json: &JsonValue) -> (items: Option<&Vec<JsonValue>>)
    ensures
        match items {
            Some(items) => abi_items(*json) == Some(items@),
            None => abi_items(*json) is None,
        },
{
    match json.get("output") {
        Some(output) => match output.get("abi") {
            Some(abi) => abi.as_array(),
            None => None,
        },
        None => None,
    }
}

impl AbiDocument {
    /// Reads the ABI document of a contract from its metadata.
    pub fn from_json(json: &JsonValue) -> (r: Result<AbiDocument, MetadataError>)
        ensures
            document_result(r) == decode_document(*json),
    {
        let contract_name = match compilation_target_of(json) {
            Some(name) => String::from_str(name),
            None => {
                return Err(MetadataError::MissingField(Field::CompilationTarget));
            },
        };
        let items = match abi_items_of(json) {
            Some(items) => items,
            None => {
                return Err(MetadataError::MissingField(Field::Abi));
            },
        };
        match entries_from_json(items) {
            Ok(entries) => Ok(AbiDocument { contract_name, entries }),
            Err(error) => Err(error),
        }
    }
}

impl StorageSlot {
    /// Reads one slot of a storage layout.
    pub fn from_json(json: &JsonValue) -> (r: Result<StorageSlot, MetadataError>)
        ensures
            slot_result(r) == decode_slot(*json),
    {
        let label = match json.get_str("label") {
            Some(text) => String::from_str(text),
            None => {
                return Err(MetadataError::MissingField(Field::Label));
            },
        };
        let slot_text = match json.get_str("slot") {
            Some(text) => text,
            None => {
                return Err(MetadataError::MissingField(Field::Slot));
            },
        };
        let slot = match parse_i32(slot_text) {
            Some(slot) => slot,
            None => {
                return Err(MetadataError::MissingField(Field::Slot));
            },
        };
        let offset = match json.get("offset") {
            Some(value) => value.as_i64(),
            None => None,
        };
        let offset = match offset {
            Some(offset) => offset,
            None => {
                return Err(MetadataError::MissingField(Field::Offset));
            },
        };
        let storage_type = match json.get_str("type") {
            Some(text) => String::from_str(text),
            None => {
                return Err(MetadataError::MissingField(Field::StorageType));
            },
        };
        let byte_offset = #[verifier::truncate]
        (offset as u32);
        Ok(StorageSlot { label, slot, byte_offset, storage_type })
    }
}

/// Reads the storage layout of a contract, slot by slot.
pub fn storage_layout_from_json(json: &JsonValue) -> (r: Result<Vec<StorageSlot>, MetadataError>)
    ensures
        storage_result(r) == decode_storage(*json),
{
    let items = match json.get("storage") {
        Some(storage) => storage.as_array(),
        None => None,
    };
    let items = match items {
        Some(items) => items,
        None => {
            return Err(MetadataError::MissingField(Field::Storage));
        },
    };
    let mut slots: Vec<StorageSlot> = Vec::new();
    let mut i: usize = 0;
    assert(slots_view(slots@) =~= Seq::<SlotModel>::empty());
    while i < items.len()
        invariant
            i <= items.len(),
            decode_storage(*json) == decode_each(items@, slot_decoder()),
            decode_first(items@, slot_decoder(), i as nat) == Ok::<Seq<SlotModel>, MetadataFault>(
                slots_view(slots@),
            ),
        decreases items.len() - i,
    {
        match StorageSlot::from_json(&items[i]) {
            Ok(slot) => {
                proof {
                    assert(slots_view(slots@.push(slot)) =~= slots_view(slots@).push(slot@));
                }
                slots.push(slot);
            },
            Err(error) => {
                proof {
                    lemma_decode_first_error(
                        items@,
                        slot_decoder(),
                        (i + 1) as nat,
                        items@.len(),
                    );
                }
                return Err(error);
            },
        }
        i += 1;
    }
    Ok(slots)
}

} // verus!
