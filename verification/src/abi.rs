//! The data that an interface is generated from: the entries of an ABI, and the slots of a
//! storage layout.

use vstd::prelude::*;
use vstd::string::*;

verus! {

/// What kind of thing an ABI entry describes.
#[derive(Clone, Copy, Debug, PartialEq, Eq, Structural)]
pub enum EntryKind {
    Function,
    Event,
}

/// What the metadata says of the value that a function takes with a call.
#[derive(Clone, Copy, Debug, PartialEq, Eq, Structural)]
pub enum StateMutability {
    /// The function takes value.
    Payable,
    /// The function is declared not to take value.
    NonPayable,
    /// The metadata says neither; such a function takes no value either.
    Unspecified,
}

/// One parameter of a function or an event.
#[derive(Debug, PartialEq, Eq)]
pub struct AbiParam {
    /// The parameter's name; empty where the ABI gives none.
    pub name: String,
    /// The ABI type, such as `uint256`, from which the C++ type is chosen.
    pub declared_type: String,
    /// The type as it is written in the signature.
    pub canonical_type: String,
}

/// A parameter, as texts.
pub struct ParamModel {
    pub name: Seq<char>,
    pub declared_type: Seq<char>,
    pub canonical_type: Seq<char>,
}

impl View for AbiParam {
    type V = ParamModel;

    open spec fn view(&self) -> ParamModel {
        ParamModel {
            name: self.name@,
            declared_type: self.declared_type@,
            canonical_type: self.canonical_type@,
        }
    }
}

/// The parameters of a list, as models.
pub open spec fn params_view(params: Seq<AbiParam>) -> Seq<ParamModel> {
    params.map_values(|param: AbiParam| param@)
}

/// One function or event of a contract.
#[derive(Debug, PartialEq, Eq)]
pub struct AbiEntry {
    pub name: String,
    pub kind: EntryKind,
    pub state_mutability: StateMutability,
    pub inputs: Vec<AbiParam>,
    /// Kept for reference; nothing is generated from the outputs.
    pub outputs: Vec<AbiParam>,
}

/// An entry, as texts and sequences.
pub struct EntryModel {
    pub name: Seq<char>,
    pub kind: EntryKind,
    pub state_mutability: StateMutability,
    pub inputs: Seq<ParamModel>,
    pub outputs: Seq<ParamModel>,
}

impl View for AbiEntry {
    type V = EntryModel;

    open spec fn view(&self) -> EntryModel {
        EntryModel {
            name: self.name@,
            kind: self.kind,
            state_mutability: self.state_mutability,
            inputs: params_view(self.inputs@),
            outputs: params_view(self.outputs@),
        }
    }
}

/// The entries of a list, as models.
pub open spec fn entries_view(entries: Seq<AbiEntry>) -> Seq<EntryModel> {
    entries.map_values(|entry: AbiEntry| entry@)
}

/// The ABI of one contract: its name and its entries in the order of declaration.
#[derive(Debug, PartialEq, Eq)]
pub struct AbiDocument {
    pub contract_name: String,
    pub entries: Vec<AbiEntry>,
}

/// A document, as texts and sequences.
pub struct DocumentModel {
    pub contract_name: Seq<char>,
    pub entries: Seq<EntryModel>,
}

impl View for AbiDocument {
    type V = DocumentModel;

    open spec fn view(&self) -> DocumentModel {
        DocumentModel { contract_name: self.contract_name@, entries: entries_view(self.entries@) }
    }
}

/// One state variable of a contract and where it is stored.
#[derive(Debug, PartialEq, Eq)]
pub struct StorageSlot {
    pub label: String,
    pub slot: i32,
    pub byte_offset: u32,
    /// The storage type tag, such as `t_mapping(t_address,t_uint256)`.
    pub storage_type: String,
}

/// A storage slot, as texts and numbers.
pub struct SlotModel {
    pub label: Seq<char>,
    pub slot: int,
    pub byte_offset: int,
    pub storage_type: Seq<char>,
}

impl View for StorageSlot {
    type V = SlotModel;

    open spec fn view(&self) -> SlotModel {
        SlotModel {
            label: self.label@,
            slot: self.slot as int,
            byte_offset: self.byte_offset as int,
            storage_type: self.storage_type@,
        }
    }
}

/// The slots of a list, as models.
pub open spec fn slots_view(slots: Seq<StorageSlot>) -> Seq<SlotModel> {
    slots.map_values(|slot: StorageSlot| slot@)
}

/// A field of the metadata that the generator needs.
#[derive(Clone, Copy, Debug, PartialEq, Eq, Structural)]
pub enum Field {
    CompilationTarget,
    Abi,
    EntryName,
    EntryKind,
    ParamInternalType,
    ParamType,
    ParamName,
    Storage,
    Label,
    Slot,
    Offset,
    StorageType,
}

/// The name of a field as the metadata writes it.
pub open spec fn field_name(field: Field) -> Seq<char> {
    match field {
        Field::CompilationTarget => "settings.compilationTarget"@,
        Field::Abi => "output.abi"@,
        Field::EntryName => "name"@,
        Field::EntryKind => "type"@,
        Field::ParamInternalType => "internalType"@,
        Field::ParamType => "type"@,
        Field::ParamName => "name"@,
        Field::Storage => "storage"@,
        Field::Label => "label"@,
        Field::Slot => "slot"@,
        Field::Offset => "offset"@,
        Field::StorageType => "type"@,
    }
}

impl Field {
    /// The name of the field as the metadata writes it.
    pub fn name(self) -> (name: &'static str)
        ensures
            name@ == field_name(self),
    {
        match self {
            Field::CompilationTarget => "settings.compilationTarget",
            Field::Abi => "output.abi",
            Field::EntryName => "name",
            Field::EntryKind => "type",
            Field::ParamInternalType => "internalType",
            Field::ParamType => "type",
            Field::ParamName => "name",
            Field::Storage => "storage",
            Field::Label => "label",
            Field::Slot => "slot",
            Field::Offset => "offset",
            Field::StorageType => "type",
        }
    }
}

/// Why metadata was refused.
#[derive(Debug, PartialEq, Eq)]
pub enum MetadataError {
    /// A field is absent, or does not hold what it must.
    MissingField(Field),
    /// An entry is neither a function nor an event; the kind it names is carried.
    InvalidEntryKind(String),
    /// A parameter type or a storage type tag is not known; the type is carried.
    UnknownType(String),
}

/// An error, as texts.
pub enum MetadataFault {
    MissingField(Field),
    InvalidEntryKind(Seq<char>),
    UnknownType(Seq<char>),
}

impl View for MetadataError {
    type V = MetadataFault;

    open spec fn view(&self) -> MetadataFault {
        match self {
            MetadataError::MissingField(field) => MetadataFault::MissingField(*field),
            MetadataError::InvalidEntryKind(kind) => MetadataFault::InvalidEntryKind(kind@),
            MetadataError::UnknownType(name) => MetadataFault::UnknownType(name@),
        }
    }
}

/// What an error says to the user.
pub open spec fn fault_message(fault: MetadataFault) -> Seq<char> {
    match fault {
        MetadataFault::MissingField(field) => "missing field: "@ + field_name(field),
        MetadataFault::InvalidEntryKind(kind) => "unknown abi type: "@ + kind,
        MetadataFault::UnknownType(name) => "unknown solidity type: "@ + name,
    }
}

impl MetadataError {
    /// What the error says to the user.
    pub fn message(&self) -> (text: String)
        ensures
            text@ == fault_message(self@),
    {
        match self {
            MetadataError::MissingField(field) => {
                let mut text = String::from_str("missing field: ");
                text.append(field.name());
                text
            },
            MetadataError::InvalidEntryKind(kind) => {
                let mut text = String::from_str("unknown abi type: ");
                text.append(kind.as_str());
                text
            },
            MetadataError::UnknownType(name) => {
                let mut text = String::from_str("unknown solidity type: ");
                text.append(name.as_str());
                text
            },
        }
    }
}

} // verus!
