//! The parameters of an entry as C++: their types, their names, and the texts that are
//! made of them.

use vstd::prelude::*;
use vstd::string::*;
use crate::abi::{AbiParam, ParamModel, params_view};
use crate::cpp_templates::{
    argument_declaration, argument_declaration_text, argument_decoder, argument_decoder_text,
};
use crate::decimal::{append_decimal, decimal};
use crate::text::{concat, concat_strings, join, join_strings, str_eq, strings_view};

verus! {

/// The C++ name of an ABI parameter type, where the type is one of the known ones.
pub open spec fn abi_cpp_type(declared: Seq<char>) -> Option<Seq<char>> {
    if declared == "address"@ {
        Some("Address"@)
    } else if declared == "uint256"@ {
        Some("uint256"@)
    } else if declared == "uint128"@ {
        Some("__uint128_t"@)
    } else if declared == "uint64"@ {
        Some("uint64_t"@)
    } else if declared == "uint32"@ {
        Some("uint32_t"@)
    } else if declared == "uint8"@ {
        Some("uint8_t"@)
    } else if declared == "int256"@ {
        Some("int256"@)
    } else if declared == "int128"@ {
        Some("__int128_t"@)
    } else if declared == "int64"@ {
        Some("int64_t"@)
    } else if declared == "int32"@ {
        Some("int32_t"@)
    } else if declared == "int8"@ {
        Some("int8_t"@)
    } else if declared == "bool"@ {
        Some("bool"@)
    } else if declared == "string"@ {
        Some("std::string"@)
    } else {
        None
    }
}

/// The C++ type of a parameter: the C++ name of its ABI type in the namespace `dtvm`.
/// Empty where the ABI type is not known.
pub open spec fn cpp_type_of(param: ParamModel) -> Seq<char> {
    match abi_cpp_type(param.declared_type) {
        Some(name) => "dtvm::"@ + name,
        None => Seq::empty(),
    }
}

/// The name of the parameter at `index`: its own, or `annoy_arg` and the index where it
/// has none.
pub open spec fn argument_name(param: ParamModel, index: nat) -> Seq<char> {
    if param.name.len() == 0 {
        "annoy_arg"@ + decimal(index)
    } else {
        param.name
    }
}

/// The name of the variable that holds the decoded argument at `index`.
pub open spec fn decoded_name(index: nat) -> Seq<char> {
    "arg"@ + decimal(index)
}

/// The parameters as they stand in a method header, split by `, `.
pub open spec fn arguments_text(inputs: Seq<ParamModel>) -> Seq<char> {
    join(
        Seq::new(
            inputs.len(),
            |i: int|
                argument_declaration_text(cpp_type_of(inputs[i]), argument_name(inputs[i], i as nat)),
        ),
        ", "@,
    )
}

/// The names of the parameters, split by `, `.
pub open spec fn names_text(inputs: Seq<ParamModel>) -> Seq<char> {
    join(Seq::new(inputs.len(), |i: int| argument_name(inputs[i], i as nat)), ", "@)
}

/// The statements that read the arguments from the input, in order.
pub open spec fn decoders_text(inputs: Seq<ParamModel>) -> Seq<char> {
    concat(
        Seq::new(
            inputs.len(),
            |i: int| argument_decoder_text(cpp_type_of(inputs[i]), decimal(i as nat)),
        ),
    )
}

/// The names of the decoded arguments, split by `, `.
pub open spec fn decoded_names_text(inputs: Seq<ParamModel>) -> Seq<char> {
    join(Seq::new(inputs.len(), |i: int| decoded_name(i as nat)), ", "@)
}

/// The types of the parameters as the signature writes them.
pub open spec fn canonical_types(inputs: Seq<ParamModel>) -> Seq<Seq<char>> {
    Seq::new(inputs.len(), |i: int| inputs[i].canonical_type)
}

/// The ABI type of the first of the first `n` parameters whose type is not known.
pub open spec fn unknown_param_type(inputs: Seq<ParamModel>, n: nat) -> Option<Seq<char>>
    decreases n,
{
    if n == 0 {
        None
    } else {
        match unknown_param_type(inputs, (n - 1) as nat) {
            Some(declared) => Some(declared),
            None => if abi_cpp_type(inputs[n - 1].declared_type) is None {
                Some(inputs[n - 1].declared_type)
            } else {
                None
            },
        }
    }
}

/// Where no unknown type is found among the first `n` parameters, each of them has a
/// known type.
pub proof fn lemma_unknown_param_type_none(inputs: Seq<ParamModel>, n: nat)
    requires
        unknown_param_type(inputs, n) is None,
    ensures
        forall|i: int| 0 <= i < n ==> abi_cpp_type(#[trigger] inputs[i].declared_type) is Some,
    decreases n,
{
    if n > 0 {
        lemma_unknown_param_type_none(inputs, (n - 1) as nat);
    }
}

/// Once an unknown type is found, it stays the first.
pub proof fn lemma_unknown_param_type_some(inputs: Seq<ParamModel>, n: nat, m: nat)
    requires
        n <= m,
        unknown_param_type(inputs, n) is Some,
    ensures
        unknown_param_type(inputs, m) == unknown_param_type(inputs, n),
    decreases m,
{
    if n < m {
        lemma_unknown_param_type_some(inputs, n, (m - 1) as nat);
    }
}

/// The C++ name of an ABI parameter type.
pub fn abi_type(declared: &str) -> (r: Option<&'static str>)
    ensures
        match r {
            Some(name) => abi_cpp_type(declared@) == Some(name@),
            None => abi_cpp_type(declared@) is None,
        },
{
    if str_eq(declared, "address") {
        Some("Address")
    } else if str_eq(declared, "uint256") {
        Some("uint256")
    } else if str_eq(declared, "uint128") {
        Some("__uint128_t")
    } else if str_eq(declared, "uint64") {
        Some("uint64_t")
    } else if str_eq(declared, "uint32") {
        Some("uint32_t")
    } else if str_eq(declared, "uint8") {
        Some("uint8_t")
    } else if str_eq(declared, "int256") {
        Some("int256")
    } else if str_eq(declared, "int128") {
        Some("__int128_t")
    } else if str_eq(declared, "int64") {
        Some("int64_t")
    } else if str_eq(declared, "int32") {
        Some("int32_t")
    } else if str_eq(declared, "int8") {
        Some("int8_t")
    } else if str_eq(declared, "bool") {
        Some("bool")
    } else if str_eq(declared, "string") {
        Some("std::string")
    } else {
        None
    }
}

/// The ABI type of the first parameter whose type is not known, if there is one.
pub fn find_unknown_param_type(inputs: &Vec<AbiParam>) -> (r: Option<String>)
    ensures
        match r {
            Some(declared) => unknown_param_type(params_view(inputs@), inputs@.len()) == Some(
                declared@,
            ),
            None => unknown_param_type(params_view(inputs@), inputs@.len()) is None,
        },
{
    let ghost models = params_view(inputs@);
    let mut i: usize = 0;
    while i < inputs.len()
        invariant
            i <= inputs.len(),
            models == params_view(inputs@),
            unknown_param_type(models, i as nat) is None,
        decreases inputs.len() - i,
    {
        if abi_type(inputs[i].declared_type.as_str()).is_none() {
            proof {
                lemma_unknown_param_type_some(models, (i + 1) as nat, inputs@.len());
            }
            return Some(inputs[i].declared_type.clone());
        }
        i += 1;
    }
    None
}

/// The texts that are made of the parameters of one entry.
pub struct ArgumentTexts {
    /// The parameters as they stand in a method header.
    pub arguments: String,
    /// The names of the parameters.
    pub names: String,
    /// The statements that decode the arguments.
    pub decoders: String,
    /// The names of the decoded arguments.
    pub decoded_names: String,
    /// The types as the signature writes them.
    pub canonical_types: Vec<String>,
}

impl ArgumentTexts {
    /// The texts are those of `inputs`.
    pub open spec fn describes(self, inputs: Seq<ParamModel>) -> bool {
        &&& self.arguments@ == arguments_text(inputs)
        &&& self.names@ == names_text(inputs)
        &&& self.decoders@ == decoders_text(inputs)
        &&& self.decoded_names@ == decoded_names_text(inputs)
        &&& strings_view(self.canonical_types@) == canonical_types(inputs)
    }

    /// Writes the texts of the parameters of an entry.
    pub fn of(inputs: &Vec<AbiParam>) -> (texts: ArgumentTexts)
        requires
            unknown_param_type(params_view(inputs@), inputs@.len()) is None,
        ensures
            texts.describes(params_view(inputs@)),
    {
        let ghost models = params_view(inputs@);
        let mut declarations: Vec<String> = Vec::new();
        let mut names: Vec<String> = Vec::new();
        let mut decoders: Vec<String> = Vec::new();
        let mut decoded: Vec<String> = Vec::new();
        let mut types: Vec<String> = Vec::new();
        proof {
            lemma_unknown_param_type_none(models, inputs@.len());
        }
        let mut i: usize = 0;
        while i < inputs.len()
            invariant
                i <= inputs.len(),
                models == params_view(inputs@),
                forall|j: int|
                    0 <= j < inputs@.len() ==> abi_cpp_type(#[trigger] models[j].declared_type)
                        is Some,
                declarations@.len() == i,
                names@.len() == i,
                decoders@.len() == i,
                decoded@.len() == i,
                types@.len() == i,
                forall|j: int|
                    0 <= j < i ==> (#[trigger] declarations@[j])@ == argument_declaration_text(
                        cpp_type_of(models[j]),
                        argument_name(models[j], j as nat),
                    ),
                forall|j: int|
                    0 <= j < i ==> (#[trigger] names@[j])@ == argument_name(models[j], j as nat),
                forall|j: int|
                    0 <= j < i ==> (#[trigger] decoders@[j])@ == argument_decoder_text(
                        cpp_type_of(models[j]),
                        decimal(j as nat),
                    ),
                forall|j: int| 0 <= j < i ==> (#[trigger] decoded@[j])@ == decoded_name(j as nat),
                forall|j: int| 0 <= j < i ==> (#[trigger] types@[j])@ == models[j].canonical_type,
            decreases inputs.len() - i,
        {
            let param = &inputs[i];
            assert(models[i as int] == param@);
            let mut cpp_type = String::from_str("dtvm::");
            match abi_type(param.declared_type.as_str()) {
                Some(name) => {
                    cpp_type.append(name);
                },
                None => {},
            }
            assert(cpp_type@ == cpp_type_of(models[i as int]));
            let mut index = String::new();
            append_decimal(&mut index, i as u64);
            assert(index@ =~= decimal(i as nat));
            let name = if param.name.as_str().is_empty() {
                let mut name = String::from_str("annoy_arg");
                name.append(index.as_str());
                name
            } else {
                param.name.clone()
            };
            assert(name@ == argument_name(models[i as int], i as nat));
            let mut decoded_name = String::from_str("arg");
            decoded_name.append(index.as_str());
            declarations.push(argument_declaration(cpp_type.as_str(), name.as_str()));
            decoders.push(argument_decoder(cpp_type.as_str(), index.as_str()));
            names.push(name);
            decoded.push(decoded_name);
            types.push(param.canonical_type.clone());
            i += 1;
        }
        proof {
            assert(strings_view(declarations@) =~= Seq::new(
                models.len(),
                |j: int|
                    argument_declaration_text(
                        cpp_type_of(models[j]),
                        argument_name(models[j], j as nat),
                    ),
            ));
            assert(strings_view(names@) =~= Seq::new(
                models.len(),
                |j: int| argument_name(models[j], j as nat),
            ));
            assert(strings_view(decoders@) =~= Seq::new(
                models.len(),
                |j: int| argument_decoder_text(cpp_type_of(models[j]), decimal(j as nat)),
            ));
            assert(strings_view(decoded@) =~= Seq::new(
                models.len(),
                |j: int| decoded_name(j as nat),
            ));
            assert(strings_view(types@) =~= canonical_types(models));
        }
        let texts = ArgumentTexts {
            arguments: join_strings(&declarations, ", "),
            names: join_strings(&names, ", "),
            decoders: concat_strings(&decoders),
            decoded_names: join_strings(&decoded, ", "),
            canonical_types: types,
        };
        proof {
            assert(texts.arguments@ == arguments_text(models));
            assert(texts.names@ == names_text(models));
            assert(texts.decoders@ == decoders_text(models));
            assert(texts.decoded_names@ == decoded_names_text(models));
            assert(strings_view(texts.canonical_types@) =~= canonical_types(models));
        }
        texts
    }
}

} // verus!
