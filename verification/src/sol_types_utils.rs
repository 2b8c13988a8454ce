//! Translation of Solidity storage-layout type tags into C++ storage types.
//!
//! A tag names a scalar (`t_uint256`), a mapping (`t_mapping(K,V)`) or a dynamic array
//! (`t_array(E)dyn_storage`). Mappings and arrays nest.

use vstd::prelude::*;
use vstd::string::*;
use crate::brackets::{
    balance, balance_first, depth_first, lacks, lemma_brackets_add, lemma_lacking_brackets,
    nesting_depth,
};
use crate::text::{
    avoids, avoids_before_last, chars_end_with, chars_find, chars_start_with, count_of, ends_with,
    first_index_of, lemma_count_at_end, lemma_count_avoiding, lemma_count_wrapped,
    lemma_count_wrapped_pair, lemma_first_index_of, lemma_first_index_of_bounds,
    lemma_occurs_in_self, occurs_at, starts_with, str_eq, to_chars,
};

verus! {

/// The C++ type of a scalar tag, where the tag is one of the known scalars.
pub open spec fn scalar_cpp_type(tag: Seq<char>) -> Option<Seq<char>> {
    if tag == "t_string_storage"@ {
        Some("std::string"@)
    } else if tag == "t_bytes32"@ {
        Some("dtvm::bytes32"@)
    } else if tag == "t_bytes_storage"@ {
        Some("dtvm::Bytes"@)
    } else if tag == "t_uint128"@ {
        Some("__uint128_t"@)
    } else if tag == "t_int128"@ {
        Some("__int128_t"@)
    } else if tag == "t_uint256"@ {
        Some("dtvm::uint256"@)
    } else if tag == "t_int256"@ {
        Some("dtvm::int256"@)
    } else if tag == "t_uint64"@ {
        Some("uint64_t"@)
    } else if tag == "t_int64"@ {
        Some("int64_t"@)
    } else if tag == "t_uint32"@ {
        Some("uint32_t"@)
    } else if tag == "t_int32"@ {
        Some("int32_t"@)
    } else if tag == "t_uint16"@ {
        Some("uint16_t"@)
    } else if tag == "t_int16"@ {
        Some("int16_t"@)
    } else if tag == "t_uint8"@ {
        Some("uint8_t"@)
    } else if tag == "t_int8"@ {
        Some("int8_t"@)
    } else if tag == "t_bool"@ {
        Some("bool"@)
    } else if tag == "t_address_storage"@ {
        Some("dtvm::Address"@)
    } else if tag == "t_address"@ {
        Some("dtvm::Address"@)
    } else {
        None
    }
}

/// The key and value tags of a mapping tag `t_mapping(K,V)`: `K` runs up to the first comma
/// of the tag, `V` from there to the closing bracket. `None` for any other tag.
pub open spec fn mapping_parts(tag: Seq<char>) -> Option<(Seq<char>, Seq<char>)> {
    let open = "t_mapping("@;
    let close = ")"@;
    let comma = first_index_of(tag, ',');
    if starts_with(tag, open) && ends_with(tag, close) && open.len() <= comma && comma + 1
        <= tag.len() - close.len() {
        Some((tag.subrange(open.len() as int, comma), tag.subrange(comma + 1, tag.len() - close.len())))
    } else {
        None
    }
}

/// The element tag of a dynamic array tag `t_array(E)dyn_storage`. `None` for any other tag.
pub open spec fn array_element(tag: Seq<char>) -> Option<Seq<char>> {
    let open = "t_array("@;
    let close = ")dyn_storage"@;
    if starts_with(tag, open) && ends_with(tag, close) && open.len() + close.len() <= tag.len() {
        Some(tag.subrange(open.len() as int, tag.len() - close.len()))
    } else {
        None
    }
}

/// The C++ storage type that a tag stands for: scalars by the table, then mappings, then
/// dynamic arrays. `None` where the tag, or a tag nested in it, is none of these.
pub open spec fn cpp_storage_type(tag: Seq<char>) -> Option<Seq<char>>
    decreases tag.len(),
{
    if scalar_cpp_type(tag) is Some {
        scalar_cpp_type(tag)
    } else if let Some((key, value)) = mapping_parts(tag) {
        match (cpp_storage_type(key), cpp_storage_type(value)) {
            (Some(k), Some(v)) => Some("dtvm::StorageMap<"@ + k + ", "@ + v + ">"@),
            _ => None,
        }
    } else if let Some(element) = array_element(tag) {
        proof {
            reveal_strlit("t_array(");
        }
        match cpp_storage_type(element) {
            Some(e) => Some("dtvm::StorageArray<"@ + e + ">"@),
            None => None,
        }
    } else {
        None
    }
}

/// The tag that stops the translation: the tag itself where it is no scalar, no mapping
/// and no array, else the tag that stops the translation of its key, of its value where
/// the key translates, or of its element. `None` where nothing stops it.
pub open spec fn unknown_tag(tag: Seq<char>) -> Option<Seq<char>>
    decreases tag.len(),
{
    if scalar_cpp_type(tag) is Some {
        None
    } else if let Some((key, value)) = mapping_parts(tag) {
        match unknown_tag(key) {
            Some(unknown) => Some(unknown),
            None => unknown_tag(value),
        }
    } else if let Some(element) = array_element(tag) {
        proof {
            reveal_strlit("t_array(");
        }
        unknown_tag(element)
    } else {
        Some(tag)
    }
}

/// A tag translates exactly where no tag in it stops the translation.
pub proof fn lemma_unknown_tag(tag: Seq<char>)
    ensures
        unknown_tag(tag) is None <==> cpp_storage_type(tag) is Some,
    decreases tag.len(),
{
    if scalar_cpp_type(tag) is Some {
    } else if let Some((key, value)) = mapping_parts(tag) {
        lemma_unknown_tag(key);
        lemma_unknown_tag(value);
    } else if let Some(element) = array_element(tag) {
        reveal_strlit("t_array(");
        lemma_unknown_tag(element);
    }
}

/// The tag that stops the translation is itself no scalar, no mapping and no array.
pub proof fn lemma_unknown_tag_is_unknown(tag: Seq<char>)
    requires
        unknown_tag(tag) is Some,
    ensures
        scalar_cpp_type(unknown_tag(tag)->0) is None,
        mapping_parts(unknown_tag(tag)->0) is None,
        array_element(unknown_tag(tag)->0) is None,
        unknown_tag(tag)->0.len() <= tag.len(),
    decreases tag.len(),
{
    if scalar_cpp_type(tag) is Some {
    } else if let Some((key, value)) = mapping_parts(tag) {
        if unknown_tag(key) is Some {
            lemma_unknown_tag_is_unknown(key);
        } else {
            lemma_unknown_tag_is_unknown(value);
        }
    } else if let Some(element) = array_element(tag) {
        reveal_strlit("t_array(");
        lemma_unknown_tag_is_unknown(element);
    }
}

/// A tag of the shape `t_mapping(..)` with a comma in it always splits into key and value.
pub proof fn lemma_mapping_parts_some(tag: Seq<char>)
    requires
        starts_with(tag, "t_mapping("@),
        ends_with(tag, ")"@),
        tag.contains(','),
    ensures
        mapping_parts(tag) is Some,
{
    reveal_strlit("t_mapping(");
    reveal_strlit(")");
    lemma_first_index_of_bounds(tag, ',');
    let comma = first_index_of(tag, ',');
    let i = choose|i: int| 0 <= i < tag.len() && tag[i] == ',';
    if comma >= tag.len() {
        assert(tag[i] != ',');
    }
    if comma < 10 {
        assert(tag.subrange(0, 10)[comma] == tag[comma]);
    }
    assert(tag.subrange(tag.len() - 1, tag.len() as int)[0] == tag[tag.len() - 1]);
}

/// A tag of the shape `t_array(..)dyn_storage` always has an element tag.
pub proof fn lemma_array_element_some(tag: Seq<char>)
    requires
        starts_with(tag, "t_array("@),
        ends_with(tag, ")dyn_storage"@),
    ensures
        array_element(tag) is Some,
{
    reveal_strlit("t_array(");
    reveal_strlit(")dyn_storage");
    let n = tag.len() as int;
    if n < 20 {
        // the opening bracket would have to be one of the characters of the ending
        assert(tag.subrange(0, 8)[7] == tag[7]);
        assert(tag.subrange(n - 12, n)[7 - (n - 12)] == tag[7]);
    }
}

/// How deep the mappings and arrays of a tag nest: 0 for a scalar, one more than the
/// deepest part for a mapping or an array.
pub open spec fn constructor_depth(tag: Seq<char>) -> int
    decreases tag.len(),
{
    if scalar_cpp_type(tag) is Some {
        0
    } else if let Some((key, value)) = mapping_parts(tag) {
        if constructor_depth(key) >= constructor_depth(value) {
            1 + constructor_depth(key)
        } else {
            1 + constructor_depth(value)
        }
    } else if let Some(element) = array_element(tag) {
        proof {
            reveal_strlit("t_array(");
        }
        1 + constructor_depth(element)
    } else {
        0
    }
}

/// The C++ type of a scalar holds no angle brackets.
proof fn lemma_scalar_type_flat(tag: Seq<char>)
    requires
        scalar_cpp_type(tag) is Some,
    ensures
        lacks(scalar_cpp_type(tag)->0, '<', '>'),
{
    reveal_strlit("std::string");
    reveal_strlit("dtvm::bytes32");
    reveal_strlit("dtvm::Bytes");
    reveal_strlit("__uint128_t");
    reveal_strlit("__int128_t");
    reveal_strlit("dtvm::uint256");
    reveal_strlit("dtvm::int256");
    reveal_strlit("uint64_t");
    reveal_strlit("int64_t");
    reveal_strlit("uint32_t");
    reveal_strlit("int32_t");
    reveal_strlit("uint16_t");
    reveal_strlit("int16_t");
    reveal_strlit("uint8_t");
    reveal_strlit("int8_t");
    reveal_strlit("bool");
    reveal_strlit("dtvm::Address");
}

/// A scalar tag holds no round brackets.
proof fn lemma_scalar_tag_flat(tag: Seq<char>)
    requires
        scalar_cpp_type(tag) is Some,
    ensures
        lacks(tag, '(', ')'),
{
    reveal_strlit("t_string_storage");
    reveal_strlit("t_bytes32");
    reveal_strlit("t_bytes_storage");
    reveal_strlit("t_uint128");
    reveal_strlit("t_int128");
    reveal_strlit("t_uint256");
    reveal_strlit("t_int256");
    reveal_strlit("t_uint64");
    reveal_strlit("t_int64");
    reveal_strlit("t_uint32");
    reveal_strlit("t_int32");
    reveal_strlit("t_uint16");
    reveal_strlit("t_int16");
    reveal_strlit("t_uint8");
    reveal_strlit("t_int8");
    reveal_strlit("t_bool");
    reveal_strlit("t_address_storage");
    reveal_strlit("t_address");
}

/// A mapping tag is its opening, its key, a comma, its value and its closing bracket.
proof fn lemma_mapping_tag_parts(tag: Seq<char>, key: Seq<char>, value: Seq<char>)
    requires
        mapping_parts(tag) == Some((key, value)),
    ensures
        tag == "t_mapping("@ + key + ","@ + value + ")"@,
{
    reveal_strlit(",");
    lemma_first_index_of_bounds(tag, ',');
    assert(tag =~= "t_mapping("@ + key + ","@ + value + ")"@);
}

/// An array tag is its opening, its element and its closing.
proof fn lemma_array_tag_parts(tag: Seq<char>)
    requires
        array_element(tag) is Some,
    ensures
        tag == "t_array("@ + array_element(tag)->0 + ")dyn_storage"@,
{
    assert(tag =~= "t_array("@ + array_element(tag)->0 + ")dyn_storage"@);
}

/// Translation keeps the nesting: the angle brackets of the C++ type nest as deep as the
/// mappings and arrays of the tag do, which is as deep as the round brackets of the tag
/// nest. Both texts close every bracket that they open.
pub proof fn lemma_translation_keeps_depth(tag: Seq<char>)
    requires
        cpp_storage_type(tag) is Some,
    ensures
        nesting_depth(cpp_storage_type(tag)->0, '<', '>') == constructor_depth(tag),
        nesting_depth(tag, '(', ')') == constructor_depth(tag),
        balance(cpp_storage_type(tag)->0, '<', '>') == 0,
        balance(tag, '(', ')') == 0,
        constructor_depth(tag) >= 0,
    decreases tag.len(),
{
    if scalar_cpp_type(tag) is Some {
        lemma_scalar_type_flat(tag);
        lemma_scalar_tag_flat(tag);
        lemma_lacking_brackets(
            scalar_cpp_type(tag)->0,
            '<',
            '>',
            scalar_cpp_type(tag)->0.len(),
        );
        lemma_lacking_brackets(tag, '(', ')', tag.len());
    } else if let Some((key, value)) = mapping_parts(tag) {
        lemma_translation_keeps_depth(key);
        lemma_translation_keeps_depth(value);
        let k = cpp_storage_type(key)->0;
        let v = cpp_storage_type(value)->0;
        lemma_literal_brackets();
        lemma_brackets_add("dtvm::StorageMap<"@, k, '<', '>');
        lemma_brackets_add("dtvm::StorageMap<"@ + k, ", "@, '<', '>');
        lemma_brackets_add("dtvm::StorageMap<"@ + k + ", "@, v, '<', '>');
        lemma_brackets_add("dtvm::StorageMap<"@ + k + ", "@ + v, ">"@, '<', '>');
        lemma_mapping_tag_parts(tag, key, value);
        lemma_brackets_add("t_mapping("@, key, '(', ')');
        lemma_brackets_add("t_mapping("@ + key, ","@, '(', ')');
        lemma_brackets_add("t_mapping("@ + key + ","@, value, '(', ')');
        lemma_brackets_add("t_mapping("@ + key + ","@ + value, ")"@, '(', ')');
    } else if let Some(element) = array_element(tag) {
        reveal_strlit("t_array(");
        lemma_translation_keeps_depth(element);
        let e = cpp_storage_type(element)->0;
        lemma_literal_brackets();
        lemma_brackets_add("dtvm::StorageArray<"@, e, '<', '>');
        lemma_brackets_add("dtvm::StorageArray<"@ + e, ">"@, '<', '>');
        lemma_array_tag_parts(tag);
        lemma_brackets_add("t_array("@, element, '(', ')');
        lemma_brackets_add("t_array("@ + element, ")dyn_storage"@, '(', ')');
    }
}

/// A mapping of two tags that translate, with a key that holds no comma, translates to
/// the map of their translations.
pub proof fn lemma_mapping_translates(key: Seq<char>, value: Seq<char>)
    requires
        cpp_storage_type(key) is Some,
        cpp_storage_type(value) is Some,
        !key.contains(','),
    ensures
        cpp_storage_type("t_mapping("@ + key + ","@ + value + ")"@) == Some(
            "dtvm::StorageMap<"@ + cpp_storage_type(key)->0 + ", "@ + cpp_storage_type(value)->0
                + ">"@,
        ),
{
    let tag = "t_mapping("@ + key + ","@ + value + ")"@;
    reveal_strlit("t_mapping(");
    reveal_strlit(",");
    reveal_strlit(")");
    if scalar_cpp_type(tag) is Some {
        lemma_scalar_tag_flat(tag);
        assert(tag[9] == '(');
    }
    assert(tag.subrange(0, 10) =~= "t_mapping("@);
    assert(tag.subrange(tag.len() - 1, tag.len() as int) =~= ")"@);
    let comma = 10 + key.len() as int;
    assert forall|j: int| 0 <= j < comma implies tag[j] != ',' by {
        if j >= 10 {
            assert(tag[j] == key[j - 10]);
        }
    }
    lemma_first_index_of(tag, ',', comma);
    assert(tag.subrange(10, comma) =~= key);
    assert(tag.subrange(comma + 1, tag.len() - 1) =~= value);
    assert(mapping_parts(tag) == Some((key, value)));
}

/// A dynamic array of a tag that translates translates to the array of its translation.
pub proof fn lemma_array_translates(element: Seq<char>)
    requires
        cpp_storage_type(element) is Some,
    ensures
        cpp_storage_type("t_array("@ + element + ")dyn_storage"@) == Some(
            "dtvm::StorageArray<"@ + cpp_storage_type(element)->0 + ">"@,
        ),
{
    let tag = "t_array("@ + element + ")dyn_storage"@;
    reveal_strlit("t_array(");
    reveal_strlit("t_mapping(");
    reveal_strlit(")dyn_storage");
    if scalar_cpp_type(tag) is Some {
        lemma_scalar_tag_flat(tag);
        assert(tag[7] == '(');
    }
    if mapping_parts(tag) is Some {
        assert(tag.subrange(0, 10)[2] == tag[2]);
    }
    assert(tag.subrange(0, 8) =~= "t_array("@);
    assert(tag.subrange(tag.len() - 12, tag.len() as int) =~= ")dyn_storage"@);
    assert(tag.subrange(8, tag.len() - 12) =~= element);
    assert(array_element(tag) == Some(element));
}

/// The opening of a mapping tag holds its round bracket at the end only, and neither a
/// comma nor a closing bracket.
proof fn lemma_mapping_opening()
    ensures
        "t_mapping("@.len() == 10,
        "t_mapping("@.last() == '(',
        "t_mapping("@[2] == 'm',
        avoids_before_last("t_mapping("@, '('),
        avoids("t_mapping("@, ','),
        avoids("t_mapping("@, ')'),
{
    reveal_strlit("t_mapping(");
}

/// The opening of an array tag holds its round bracket at the end only, and neither a
/// comma nor a closing bracket.
proof fn lemma_array_opening()
    ensures
        "t_array("@.len() == 8,
        "t_array("@.last() == '(',
        "t_array("@[0] == 't',
        avoids_before_last("t_array("@, '('),
        avoids("t_array("@, ','),
        avoids("t_array("@, ')'),
{
    reveal_strlit("t_array(");
}

/// The separator and the closings of tags hold no opening round bracket.
proof fn lemma_tag_closings()
    ensures
        ","@.len() == 1 && ","@[0] == ',' && avoids(","@, '('),
        ")"@.len() == 1 && ")"@[0] == ')' && avoids(")"@, '('),
        ")dyn_storage"@.len() == 12 && ")dyn_storage"@[0] == ')' && avoids(")dyn_storage"@, '('),
{
    reveal_strlit(",");
    reveal_strlit(")");
    reveal_strlit(")dyn_storage");
}

/// The opening of a map type holds its angle bracket at the end only, and no comma, no
/// space and no closing bracket.
proof fn lemma_map_type_opening()
    ensures
        "dtvm::StorageMap<"@.len() == 17,
        "dtvm::StorageMap<"@.last() == '<',
        "dtvm::StorageMap<"@[0] == 'd',
        avoids_before_last("dtvm::StorageMap<"@, '<'),
        avoids("dtvm::StorageMap<"@, ','),
        avoids("dtvm::StorageMap<"@, ' '),
        avoids("dtvm::StorageMap<"@, '>'),
{
    reveal_strlit("dtvm::StorageMap<");
}

/// The opening of an array type holds its angle bracket at the end only, and no comma,
/// no space and no closing bracket.
proof fn lemma_array_type_opening()
    ensures
        "dtvm::StorageArray<"@.len() == 19,
        "dtvm::StorageArray<"@.last() == '<',
        "dtvm::StorageArray<"@[2] == 'v',
        avoids_before_last("dtvm::StorageArray<"@, '<'),
        avoids("dtvm::StorageArray<"@, ','),
        avoids("dtvm::StorageArray<"@, ' '),
        avoids("dtvm::StorageArray<"@, '>'),
{
    reveal_strlit("dtvm::StorageArray<");
}

/// The separator and the closing of types hold no opening angle bracket.
proof fn lemma_type_closings()
    ensures
        ", "@.len() == 2 && ", "@[0] == ',' && ", "@.last() == ' ' && avoids(", "@, '<'),
        ">"@.len() == 1 && ">"@[0] == '>' && avoids(">"@, '<'),
{
    reveal_strlit(", ");
    reveal_strlit(">");
}

/// An opening holds itself once and the other opening never.
proof fn lemma_opening_counts()
    ensures
        count_of("t_mapping("@, "t_mapping("@) == 1,
        count_of("t_mapping("@, "t_array("@) == 0,
        count_of("t_array("@, "t_array("@) == 1,
        count_of("t_array("@, "t_mapping("@) == 0,
        count_of("dtvm::StorageMap<"@, "dtvm::StorageMap<"@) == 1,
        count_of("dtvm::StorageMap<"@, "dtvm::StorageArray<"@) == 0,
        count_of("dtvm::StorageArray<"@, "dtvm::StorageArray<"@) == 1,
        count_of("dtvm::StorageArray<"@, "dtvm::StorageMap<"@) == 0,
{
    let mapping = "t_mapping("@;
    let array = "t_array("@;
    let map_type = "dtvm::StorageMap<"@;
    let array_type = "dtvm::StorageArray<"@;
    lemma_mapping_opening();
    lemma_array_opening();
    lemma_map_type_opening();
    lemma_array_type_opening();
    lemma_occurs_in_self(mapping);
    lemma_occurs_in_self(array);
    lemma_occurs_in_self(map_type);
    lemma_occurs_in_self(array_type);
    lemma_count_at_end(mapping, mapping);
    lemma_count_at_end(array, array);
    lemma_count_at_end(map_type, map_type);
    lemma_count_at_end(array_type, array_type);
    lemma_count_at_end(mapping, array);
    assert(mapping.subrange(2, 10)[0] == mapping[2]);
    assert(!occurs_at(mapping, array, 2));
    lemma_count_at_end(array, mapping);
    lemma_count_at_end(array_type, map_type);
    assert(array_type.subrange(2, 19)[0] == array_type[2]);
    assert(!occurs_at(array_type, map_type, 2));
    lemma_count_at_end(map_type, array_type);
}

/// The separator and the closings hold no opening.
proof fn lemma_closing_counts()
    ensures
        count_of(","@, "t_mapping("@) == 0,
        count_of(","@, "t_array("@) == 0,
        count_of(")"@, "t_mapping("@) == 0,
        count_of(")"@, "t_array("@) == 0,
        count_of(")dyn_storage"@, "t_mapping("@) == 0,
        count_of(")dyn_storage"@, "t_array("@) == 0,
        count_of(", "@, "dtvm::StorageMap<"@) == 0,
        count_of(", "@, "dtvm::StorageArray<"@) == 0,
        count_of(">"@, "dtvm::StorageMap<"@) == 0,
        count_of(">"@, "dtvm::StorageArray<"@) == 0,
{
    lemma_mapping_opening();
    lemma_array_opening();
    lemma_map_type_opening();
    lemma_array_type_opening();
    lemma_tag_closings();
    lemma_type_closings();
    lemma_count_avoiding(","@, "t_mapping("@, '(', 9);
    lemma_count_avoiding(","@, "t_array("@, '(', 7);
    lemma_count_avoiding(")"@, "t_mapping("@, '(', 9);
    lemma_count_avoiding(")"@, "t_array("@, '(', 7);
    lemma_count_avoiding(")dyn_storage"@, "t_mapping("@, '(', 9);
    lemma_count_avoiding(")dyn_storage"@, "t_array("@, '(', 7);
    lemma_count_avoiding(", "@, "dtvm::StorageMap<"@, '<', 16);
    lemma_count_avoiding(", "@, "dtvm::StorageArray<"@, '<', 18);
    lemma_count_avoiding(">"@, "dtvm::StorageMap<"@, '<', 16);
    lemma_count_avoiding(">"@, "dtvm::StorageArray<"@, '<', 18);
}

/// Translation keeps the constructors: the C++ type opens as many maps as the tag opens
/// mappings, and as many arrays as the tag opens arrays.
pub proof fn lemma_translation_keeps_counts(tag: Seq<char>)
    requires
        cpp_storage_type(tag) is Some,
    ensures
        count_of(cpp_storage_type(tag)->0, "dtvm::StorageMap<"@) == count_of(tag, "t_mapping("@),
        count_of(cpp_storage_type(tag)->0, "dtvm::StorageArray<"@) == count_of(tag, "t_array("@),
    decreases tag.len(),
{
    let mapping = "t_mapping("@;
    let array = "t_array("@;
    let map_type = "dtvm::StorageMap<"@;
    let array_type = "dtvm::StorageArray<"@;
    lemma_mapping_opening();
    lemma_array_opening();
    lemma_map_type_opening();
    lemma_array_type_opening();
    lemma_tag_closings();
    lemma_type_closings();
    lemma_opening_counts();
    lemma_closing_counts();
    if scalar_cpp_type(tag) is Some {
        let cpp = scalar_cpp_type(tag)->0;
        lemma_scalar_tag_flat(tag);
        lemma_scalar_type_flat(tag);
        assert(avoids(tag, '('));
        assert(avoids(cpp, '<'));
        lemma_count_avoiding(tag, mapping, '(', 9);
        lemma_count_avoiding(tag, array, '(', 7);
        lemma_count_avoiding(cpp, map_type, '<', 16);
        lemma_count_avoiding(cpp, array_type, '<', 18);
    } else if let Some((key, value)) = mapping_parts(tag) {
        lemma_translation_keeps_counts(key);
        lemma_translation_keeps_counts(value);
        let k = cpp_storage_type(key)->0;
        let v = cpp_storage_type(value)->0;
        lemma_mapping_tag_parts(tag, key, value);
        lemma_count_wrapped_pair(mapping, key, ","@, value, ")"@, mapping);
        lemma_count_wrapped_pair(mapping, key, ","@, value, ")"@, array);
        lemma_count_wrapped_pair(map_type, k, ", "@, v, ">"@, map_type);
        lemma_count_wrapped_pair(map_type, k, ", "@, v, ">"@, array_type);
    } else if let Some(element) = array_element(tag) {
        reveal_strlit("t_array(");
        lemma_translation_keeps_counts(element);
        let e = cpp_storage_type(element)->0;
        lemma_array_tag_parts(tag);
        lemma_count_wrapped(array, element, ")dyn_storage"@, mapping);
        lemma_count_wrapped(array, element, ")dyn_storage"@, array);
        lemma_count_wrapped(array_type, e, ">"@, map_type);
        lemma_count_wrapped(array_type, e, ">"@, array_type);
    }
}

/// The brackets of the fixed parts of mapping and array types and tags.
proof fn lemma_literal_brackets()
    ensures
        balance("dtvm::StorageMap<"@, '<', '>') == 1,
        nesting_depth("dtvm::StorageMap<"@, '<', '>') == 1,
        balance("dtvm::StorageArray<"@, '<', '>') == 1,
        nesting_depth("dtvm::StorageArray<"@, '<', '>') == 1,
        balance(", "@, '<', '>') == 0,
        nesting_depth(", "@, '<', '>') == 0,
        balance(">"@, '<', '>') == -1,
        nesting_depth(">"@, '<', '>') == 0,
        balance("t_mapping("@, '(', ')') == 1,
        nesting_depth("t_mapping("@, '(', ')') == 1,
        balance("t_array("@, '(', ')') == 1,
        nesting_depth("t_array("@, '(', ')') == 1,
        balance(","@, '(', ')') == 0,
        nesting_depth(","@, '(', ')') == 0,
        balance(")"@, '(', ')') == -1,
        nesting_depth(")"@, '(', ')') == 0,
        balance(")dyn_storage"@, '(', ')') == -1,
        nesting_depth(")dyn_storage"@, '(', ')') == 0,
{
    reveal_with_fuel(balance_first, 20);
    reveal_with_fuel(depth_first, 20);
    reveal_strlit("dtvm::StorageMap<");
    reveal_strlit("dtvm::StorageArray<");
    reveal_strlit(", ");
    reveal_strlit(">");
    reveal_strlit("t_mapping(");
    reveal_strlit("t_array(");
    reveal_strlit(",");
    reveal_strlit(")");
    reveal_strlit(")dyn_storage");
}

/// The C++ type of a scalar tag.
fn scalar_type(tag: &str) -> (r: Option<&'static str>)
    ensures
        match r {
            Some(t) => scalar_cpp_type(tag@) == Some(t@),
            None => scalar_cpp_type(tag@) is None,
        },
{
    if str_eq(tag, "t_string_storage") {
        Some("std::string")
    } else if str_eq(tag, "t_bytes32") {
        Some("dtvm::bytes32")
    } else if str_eq(tag, "t_bytes_storage") {
        Some("dtvm::Bytes")
    } else if str_eq(tag, "t_uint128") {
        Some("__uint128_t")
    } else if str_eq(tag, "t_int128") {
        Some("__int128_t")
    } else if str_eq(tag, "t_uint256") {
        Some("dtvm::uint256")
    } else if str_eq(tag, "t_int256") {
        Some("dtvm::int256")
    } else if str_eq(tag, "t_uint64") {
        Some("uint64_t")
    } else if str_eq(tag, "t_int64") {
        Some("int64_t")
    } else if str_eq(tag, "t_uint32") {
        Some("uint32_t")
    } else if str_eq(tag, "t_int32") {
        Some("int32_t")
    } else if str_eq(tag, "t_uint16") {
        Some("uint16_t")
    } else if str_eq(tag, "t_int16") {
        Some("int16_t")
    } else if str_eq(tag, "t_uint8") {
        Some("uint8_t")
    } else if str_eq(tag, "t_int8") {
        Some("int8_t")
    } else if str_eq(tag, "t_bool") {
        Some("bool")
    } else if str_eq(tag, "t_address_storage") {
        Some("dtvm::Address")
    } else if str_eq(tag, "t_address") {
        Some("dtvm::Address")
    } else {
        None
    }
}

/// Splits a mapping tag into its key tag and its value tag.
pub fn parse_mapping_type<'a>(solidity_type: &'a str) -> (r: Option<(&'a str, &'a str)>)
    ensures
        match r {
            Some((key, value)) => mapping_parts(solidity_type@) == Some((key@, value@)),
            None => mapping_parts(solidity_type@) is None,
        },
{
    let chars = to_chars(solidity_type);
    if !chars_start_with(&chars, "t_mapping(") || !chars_end_with(&chars, ")") {
        return None;
    }
    let open_len = "t_mapping(".unicode_len();
    let close_len = ")".unicode_len();
    // key types hold no comma, so the first comma ends the key
    let comma = chars_find(&chars, ',');
    if open_len <= comma && comma < chars.len() - close_len {
        Some(
            (
                solidity_type.substring_char(open_len, comma),
                solidity_type.substring_char(comma + 1, chars.len() - close_len),
            ),
        )
    } else {
        None
    }
}

/// Takes the element tag out of a dynamic array tag.
pub fn parse_array_type<'a>(solidity_type: &'a str) -> (r: Option<&'a str>)
    ensures
        match r {
            Some(element) => array_element(solidity_type@) == Some(element@),
            None => array_element(solidity_type@) is None,
        },
{
    let chars = to_chars(solidity_type);
    if !chars_start_with(&chars, "t_array(") || !chars_end_with(&chars, ")dyn_storage") {
        return None;
    }
    let open_len = "t_array(".unicode_len();
    let close_len = ")dyn_storage".unicode_len();
    if open_len <= chars.len() - close_len {
        Some(solidity_type.substring_char(open_len, chars.len() - close_len))
    } else {
        None
    }
}

/// Translates a storage type tag. Where the tag does not translate, the error is the tag
/// that stops the translation.
pub fn parse_type(solidity_type: &str) -> (r: Result<String, String>)
    ensures
        match r {
            Ok(cpp) => {
                &&& cpp_storage_type(solidity_type@) == Some(cpp@)
                &&& unknown_tag(solidity_type@) is None
            },
            Err(unknown) => {
                &&& cpp_storage_type(solidity_type@) is None
                &&& unknown_tag(solidity_type@) == Some(unknown@)
            },
        },
    decreases solidity_type@.len(),
{
    if let Some(cpp_type) = scalar_type(solidity_type) {
        return Ok(String::from_str(cpp_type));
    }
    if let Some((key_type, value_type)) = parse_mapping_type(solidity_type) {
        let key = match parse_type(key_type) {
            Ok(key) => key,
            Err(unknown) => {
                return Err(unknown);
            },
        };
        let value = match parse_type(value_type) {
            Ok(value) => value,
            Err(unknown) => {
                return Err(unknown);
            },
        };
        let mut cpp = String::from_str("dtvm::StorageMap<");
        cpp.append(key.as_str());
        cpp.append(", ");
        cpp.append(value.as_str());
        cpp.append(">");
        return Ok(cpp);
    }
    if let Some(element_type) = parse_array_type(solidity_type) {
        proof {
            reveal_strlit("t_array(");
        }
        let element = match parse_type(element_type) {
            Ok(element) => element,
            Err(unknown) => {
                return Err(unknown);
            },
        };
        let mut cpp = String::from_str("dtvm::StorageArray<");
        cpp.append(element.as_str());
        cpp.append(">");
        return Ok(cpp);
    }
    Err(String::from_str(solidity_type))
}

/// Finds the tag that stops the translation of a storage type tag, if there is one.
pub fn find_unknown_tag(solidity_type: &str) -> (r: Option<String>)
    ensures
        match r {
            Some(unknown) => unknown_tag(solidity_type@) == Some(unknown@),
            None => unknown_tag(solidity_type@) is None,
        },
    decreases solidity_type@.len(),
{
    if scalar_type(solidity_type).is_some() {
        return None;
    }
    if let Some((key_type, value_type)) = parse_mapping_type(solidity_type) {
        return match find_unknown_tag(key_type) {
            Some(unknown) => Some(unknown),
            None => find_unknown_tag(value_type),
        };
    }
    if let Some(element_type) = parse_array_type(solidity_type) {
        proof {
            reveal_strlit("t_array(");
        }
        return find_unknown_tag(element_type);
    }
    Some(String::from_str(solidity_type))
}

/// The C++ storage type of a Solidity storage type tag.
pub fn transform_solidity_storage_type_to_cpp(solidity_type: &str) -> (cpp: String)
    requires
        cpp_storage_type(solidity_type@) is Some,
    ensures
        cpp_storage_type(solidity_type@) == Some(cpp@),
{
    match parse_type(solidity_type) {
        Ok(cpp) => cpp,
        Err(_) => String::new(),
    }
}

} // verus!
