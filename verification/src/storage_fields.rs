//! What is generated for the storage layout of a contract: the fields of the contract
//! class and the constructor that sets them up.

use vstd::prelude::*;
use vstd::string::*;
use crate::abi::{SlotModel, StorageSlot, slots_view};
use crate::cpp_templates::{
    constructor_open, constructor_open_text, field_pair, field_pair_text, initializer,
    initializer_text, persistent_value, persistent_value_text,
};
use crate::decimal::{append_decimal, append_signed_decimal, decimal, signed_decimal};
use crate::sol_types_utils::{
    cpp_storage_type, find_unknown_tag, lemma_unknown_tag, transform_solidity_storage_type_to_cpp,
    unknown_tag,
};
use crate::text::{
    chars_start_with, concat, concat_strings, lemma_concat_part, lemma_occurs_at_add_left,
    lemma_occurs_at_add_right, lemma_part_offsets_grow, occurs_at, part_offset, starts_with,
    strings_view, to_chars,
};

verus! {

/// Whether a storage type is kept in the persistent wrapper: every type but the mappings
/// and the arrays, which are persistent by themselves.
pub open spec fn is_wrapped(storage_type: Seq<char>) -> bool {
    !starts_with(storage_type, "t_mapping"@) && !starts_with(storage_type, "t_array"@)
}

/// The C++ type of the value of a state variable. Empty, or the wrapper of nothing, where
/// the storage type is not known.
pub open spec fn slot_cpp_type(slot: SlotModel) -> Seq<char> {
    let translated = match cpp_storage_type(slot.storage_type) {
        Some(cpp) => cpp,
        None => Seq::empty(),
    };
    if is_wrapped(slot.storage_type) {
        persistent_value_text(translated)
    } else {
        translated
    }
}

/// The fields of a state variable.
pub open spec fn slot_fields_text(slot: SlotModel) -> Seq<char> {
    field_pair_text(slot.label, slot_cpp_type(slot))
}

/// The constructor statements of a state variable.
pub open spec fn slot_initializer_text(slot: SlotModel) -> Seq<char> {
    initializer_text(
        slot.label,
        signed_decimal(slot.slot),
        decimal(slot.byte_offset as nat),
        slot_cpp_type(slot),
    )
}

/// The fields of all state variables in the order of the layout, under `protected:`.
/// Empty where the layout is empty.
pub open spec fn fields_text(slots: Seq<SlotModel>) -> Seq<char> {
    if slots.len() == 0 {
        Seq::empty()
    } else {
        "protected:"@ + concat(field_parts(slots))
    }
}

/// The constructor that sets up all state variables in the order of the layout. Empty
/// where the layout is empty.
pub open spec fn constructor_text(class_name: Seq<char>, slots: Seq<SlotModel>) -> Seq<char> {
    if slots.len() == 0 {
        Seq::empty()
    } else {
        constructor_open_text(class_name) + concat(initializer_parts(slots)) + "    }\n\n"@
    }
}

/// The constructor statements of all slots, in the order of the layout.
pub open spec fn initializer_parts(slots: Seq<SlotModel>) -> Seq<Seq<char>> {
    Seq::new(slots.len(), |i: int| slot_initializer_text(slots[i]))
}

/// The fields of all slots, in the order of the layout.
pub open spec fn field_parts(slots: Seq<SlotModel>) -> Seq<Seq<char>> {
    Seq::new(slots.len(), |i: int| slot_fields_text(slots[i]))
}

/// Where the statements of slot `i` start in the constructor.
pub open spec fn initializer_position(class_name: Seq<char>, slots: Seq<SlotModel>, i: int) -> int {
    constructor_open_text(class_name).len() + part_offset(initializer_parts(slots), i as nat)
}

/// Where the fields of slot `i` start in the text of the fields.
pub open spec fn field_position(slots: Seq<SlotModel>, i: int) -> int {
    "protected:"@.len() + part_offset(field_parts(slots), i as nat)
}

/// The constructor sets up the state variables in the order of the storage layout: the
/// statements of each slot stand in the constructor, and those of an earlier slot end
/// before those of a later slot start. The fields are declared in the same order.
pub proof fn lemma_storage_in_layout_order(
    class_name: Seq<char>,
    slots: Seq<SlotModel>,
    i: int,
    j: int,
)
    requires
        0 <= i <= j < slots.len(),
    ensures
        occurs_at(
            constructor_text(class_name, slots),
            slot_initializer_text(slots[i]),
            initializer_position(class_name, slots, i),
        ),
        occurs_at(fields_text(slots), slot_fields_text(slots[i]), field_position(slots, i)),
        i < j ==> initializer_position(class_name, slots, i) + slot_initializer_text(
            slots[i],
        ).len() <= initializer_position(class_name, slots, j),
        i < j ==> field_position(slots, i) + slot_fields_text(slots[i]).len() <= field_position(
            slots,
            j,
        ),
{
    let statements = initializer_parts(slots);
    let fields = field_parts(slots);
    lemma_concat_part(statements, i);
    lemma_occurs_at_add_right(
        constructor_open_text(class_name),
        concat(statements),
        statements[i],
        part_offset(statements, i as nat),
    );
    lemma_occurs_at_add_left(
        constructor_open_text(class_name) + concat(statements),
        "    }\n\n"@,
        statements[i],
        initializer_position(class_name, slots, i),
    );
    lemma_concat_part(fields, i);
    lemma_occurs_at_add_right(
        "protected:"@,
        concat(fields),
        fields[i],
        part_offset(fields, i as nat),
    );
    if i < j {
        lemma_part_offsets_grow(statements, i as nat, j as nat);
        lemma_part_offsets_grow(fields, i as nat, j as nat);
    }
}

/// Without a storage layout the class gets no fields and no constructor.
pub proof fn lemma_no_storage_no_constructor(class_name: Seq<char>, slots: Seq<SlotModel>)
    requires
        slots.len() == 0,
    ensures
        fields_text(slots) == Seq::<char>::empty(),
        constructor_text(class_name, slots) == Seq::<char>::empty(),
{
}

/// The tag that stops the translation of the first of the first `n` slots whose storage
/// type does not translate.
pub open spec fn unknown_slot_type(slots: Seq<SlotModel>, n: nat) -> Option<Seq<char>>
    decreases n,
{
    if n == 0 {
        None
    } else {
        match unknown_slot_type(slots, (n - 1) as nat) {
            Some(unknown) => Some(unknown),
            None => unknown_tag(slots[n - 1].storage_type),
        }
    }
}

/// Where no unknown type is found among the first `n` slots, each of them has a known
/// type.
pub proof fn lemma_unknown_slot_type_none(slots: Seq<SlotModel>, n: nat)
    requires
        unknown_slot_type(slots, n) is None,
    ensures
        forall|i: int| 0 <= i < n ==> cpp_storage_type(#[trigger] slots[i].storage_type) is Some,
    decreases n,
{
    if n > 0 {
        lemma_unknown_slot_type_none(slots, (n - 1) as nat);
        lemma_unknown_tag(slots[n - 1].storage_type);
    }
}

/// Once an unknown type is found, it stays the first.
pub proof fn lemma_unknown_slot_type_some(slots: Seq<SlotModel>, n: nat, m: nat)
    requires
        n <= m,
        unknown_slot_type(slots, n) is Some,
    ensures
        unknown_slot_type(slots, m) == unknown_slot_type(slots, n),
    decreases m,
{
    if n < m {
        lemma_unknown_slot_type_some(slots, n, (m - 1) as nat);
    }
}

/// The first tag of the layout that is not known, if there is one: of the first slot
/// whose storage type does not translate, the tag that stops the translation.
pub fn find_unknown_slot_type(slots: &Vec<StorageSlot>) -> (r: Option<String>)
    ensures
        match r {
            Some(unknown) => unknown_slot_type(slots_view(slots@), slots@.len()) == Some(
                unknown@,
            ),
            None => unknown_slot_type(slots_view(slots@), slots@.len()) is None,
        },
{
    let ghost models = slots_view(slots@);
    let mut i: usize = 0;
    while i < slots.len()
        invariant
            i <= slots.len(),
            models == slots_view(slots@),
            unknown_slot_type(models, i as nat) is None,
        decreases slots.len() - i,
    {
        assert(models[i as int] == slots@[i as int]@);
        match find_unknown_tag(slots[i].storage_type.as_str()) {
            Some(unknown) => {
                proof {
                    lemma_unknown_slot_type_some(models, (i + 1) as nat, slots@.len());
                }
                return Some(unknown);
            },
            None => {},
        }
        i += 1;
    }
    None
}

/// The C++ type of the value of a state variable.
pub fn slot_type(slot: &StorageSlot) -> (cpp: String)
    requires
        cpp_storage_type(slot@.storage_type) is Some,
    ensures
        cpp@ == slot_cpp_type(slot@),
{
    let translated = transform_solidity_storage_type_to_cpp(slot.storage_type.as_str());
    let chars = to_chars(slot.storage_type.as_str());
    if !chars_start_with(&chars, "t_mapping") && !chars_start_with(&chars, "t_array") {
        persistent_value(translated.as_str())
    } else {
        translated
    }
}

/// What was generated for a storage layout.
pub struct StorageTexts {
    /// The fields of the contract class.
    pub fields: String,
    /// The constructor of the contract class.
    pub constructor: String,
}

/// Writes the fields and the constructor for a storage layout.
pub fn emit_storage(class_name: &str, slots: &Vec<StorageSlot>) -> (texts: StorageTexts)
    requires
        unknown_slot_type(slots_view(slots@), slots@.len()) is None,
    ensures
        texts.fields@ == fields_text(slots_view(slots@)),
        texts.constructor@ == constructor_text(class_name@, slots_view(slots@)),
{
    let ghost models = slots_view(slots@);
    if slots.len() == 0 {
        return StorageTexts { fields: String::new(), constructor: String::new() };
    }
    proof {
        lemma_unknown_slot_type_none(models, slots@.len());
    }
    let mut fields: Vec<String> = Vec::new();
    let mut initializers: Vec<String> = Vec::new();
    let mut i: usize = 0;
    while i < slots.len()
        invariant
            i <= slots.len(),
            models == slots_view(slots@),
            forall|j: int|
                0 <= j < slots@.len() ==> cpp_storage_type(#[trigger] models[j].storage_type)
                    is Some,
            fields@.len() == i,
            initializers@.len() == i,
            forall|j: int| 0 <= j < i ==> (#[trigger] fields@[j])@ == slot_fields_text(models[j]),
            forall|j: int|
                0 <= j < i ==> (#[trigger] initializers@[j])@ == slot_initializer_text(models[j]),
        decreases slots.len() - i,
    {
        let slot = &slots[i];
        assert(models[i as int] == slot@);
        let cpp_type = slot_type(slot);
        let mut number = String::new();
        append_signed_decimal(&mut number, slot.slot as i64);
        assert(number@ =~= signed_decimal(slot@.slot));
        let mut offset = String::new();
        append_decimal(&mut offset, slot.byte_offset as u64);
        assert(offset@ =~= decimal(slot@.byte_offset as nat));
        fields.push(field_pair(slot.label.as_str(), cpp_type.as_str()));
        initializers.push(
            initializer(slot.label.as_str(), number.as_str(), offset.as_str(), cpp_type.as_str()),
        );
        i += 1;
    }
    proof {
        assert(strings_view(fields@) =~= Seq::new(
            models.len(),
            |j: int| slot_fields_text(models[j]),
        ));
        assert(strings_view(initializers@) =~= Seq::new(
            models.len(),
            |j: int| slot_initializer_text(models[j]),
        ));
    }
    // the fields are protected, so that the contract that derives from the class reaches them
    let mut fields_text = String::from_str("protected:");
    fields_text.append(concat_strings(&fields).as_str());
    let mut constructor = constructor_open(class_name);
    constructor.append(concat_strings(&initializers).as_str());
    constructor.append("    }\n\n");
    StorageTexts { fields: fields_text, constructor }
}

} // verus!
