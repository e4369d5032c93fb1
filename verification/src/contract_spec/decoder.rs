//! Decoding the specification that a contract carries in its WebAssembly.

use vstd::prelude::*;

use crate::contract_spec::types::{
    entry_models, struct_models, type_models, EntryModel,
    EnumCaseModel, EnumModel, FunctionModel, MemberModel, SpecEntry, SpecEnum,
    SpecFunction, SpecStruct, SpecType, SpecUnion, SpecUnionCase, StructModel,
    TypeModel, UnionCaseModel, UnionModel,
};
use crate::contract_spec::wasm::{
    find_section, parse_payloads, payloads_in, section_missing, section_named,
};
use crate::contract_spec::xdr::{entries_in, read_entries};
use crate::error::{GratError, GratResult};
use crate::text::{append, append_decimal, decimal, optional_text, owned};

verus! {

/// An error code of a contract.
#[derive(Debug, Clone, PartialEq, Eq)]
pub struct ContractErrorEntry {
    pub code: u32,
    pub name: String,
    pub doc: Option<String>,
}

/// A function of a contract.
#[derive(Debug, Clone, PartialEq, Eq)]
pub struct ContractFunction {
    pub name: String,
    pub params: Vec<(String, String)>,
    pub return_type: String,
    pub doc: Option<String>,
    pub return_type_def: Option<SpecType>,
    pub param_defs: Vec<(String, SpecType)>,
}

/// A field of a struct of a contract.
#[derive(Debug, Clone, PartialEq, Eq)]
pub struct ContractStructField {
    pub name: String,
    pub type_label: String,
    pub doc: Option<String>,
    pub type_def: Option<SpecType>,
}

/// A struct of a contract.
#[derive(Debug, Clone, PartialEq, Eq)]
pub struct ContractStructDef {
    pub name: String,
    pub fields: Vec<ContractStructField>,
    pub doc: Option<String>,
}

/// A case of an enum of a contract.
#[derive(Debug, Clone, PartialEq, Eq)]
pub struct ContractEnumCase {
    pub name: String,
    pub value: u32,
    pub doc: Option<String>,
}

/// An enum of a contract.
#[derive(Debug, Clone, PartialEq, Eq)]
pub struct ContractEnumDef {
    pub name: String,
    pub cases: Vec<ContractEnumCase>,
    pub doc: Option<String>,
}

/// A case of a union of a contract.
#[derive(Debug, Clone, PartialEq, Eq)]
pub struct ContractUnionCase {
    pub name: String,
    pub doc: Option<String>,
    pub value_types: Option<Vec<SpecType>>,
    pub fields: Option<Vec<ContractStructField>>,
}

/// A union of a contract.
#[derive(Debug, Clone, PartialEq, Eq)]
pub struct ContractUnionDef {
    pub name: String,
    pub cases: Vec<ContractUnionCase>,
    pub doc: Option<String>,
}

/// The interface of a contract.
#[derive(Debug, Clone, PartialEq, Eq)]
pub struct ContractSpec {
    pub errors: Vec<ContractErrorEntry>,
    pub functions: Vec<ContractFunction>,
    pub structs: Vec<ContractStructDef>,
    pub name: Option<String>,
    pub version: Option<String>,
    pub enums: Vec<ContractEnumDef>,
    pub unions: Vec<ContractUnionDef>,
}

/// The model of [`ContractErrorEntry`].
pub struct ErrorEntryModel {
    pub code: u32,
    pub name: Seq<char>,
    pub doc: Option<Seq<char>>,
}

/// The model of [`ContractFunction`].
pub struct ContractFunctionModel {
    pub name: Seq<char>,
    pub params: Seq<(Seq<char>, Seq<char>)>,
    pub return_type: Seq<char>,
    pub doc: Option<Seq<char>>,
    pub return_type_def: Option<TypeModel>,
    pub param_defs: Seq<(Seq<char>, TypeModel)>,
}

/// The model of [`ContractStructField`].
pub struct StructFieldModel {
    pub name: Seq<char>,
    pub type_label: Seq<char>,
    pub doc: Option<Seq<char>>,
    pub type_def: Option<TypeModel>,
}

/// The model of [`ContractStructDef`].
pub struct StructDefModel {
    pub name: Seq<char>,
    pub fields: Seq<StructFieldModel>,
    pub doc: Option<Seq<char>>,
}

/// The model of [`ContractEnumCase`].
pub struct EnumDefCaseModel {
    pub name: Seq<char>,
    pub value: u32,
    pub doc: Option<Seq<char>>,
}

/// The model of [`ContractEnumDef`].
pub struct EnumDefModel {
    pub name: Seq<char>,
    pub cases: Seq<EnumDefCaseModel>,
    pub doc: Option<Seq<char>>,
}

/// The model of [`ContractUnionCase`].
pub struct UnionDefCaseModel {
    pub name: Seq<char>,
    pub doc: Option<Seq<char>>,
    pub value_types: Option<Seq<TypeModel>>,
    pub fields: Option<Seq<StructFieldModel>>,
}

/// The model of [`ContractUnionDef`].
pub struct UnionDefModel {
    pub name: Seq<char>,
    pub cases: Seq<UnionDefCaseModel>,
    pub doc: Option<Seq<char>>,
}

/// The model of [`ContractSpec`].
#[verifier::ext_equal]
pub struct ContractSpecModel {
    pub errors: Seq<ErrorEntryModel>,
    pub functions: Seq<ContractFunctionModel>,
    pub structs: Seq<StructDefModel>,
    pub name: Option<Seq<char>>,
    pub version: Option<Seq<char>>,
    pub enums: Seq<EnumDefModel>,
    pub unions: Seq<UnionDefModel>,
}

impl View for ContractErrorEntry {
    type V = ErrorEntryModel;

    open spec fn view(&self) -> ErrorEntryModel {
        ErrorEntryModel { code: self.code, name: self.name@, doc: optional_text(self.doc) }
    }
}

impl View for ContractFunction {
    type V = ContractFunctionModel;

    open spec fn view(&self) -> ContractFunctionModel {
        ContractFunctionModel {
            name: self.name@,
            params: Seq::new(
                self.params@.len(),
                |i: int| (self.params@[i].0@, self.params@[i].1@),
            ),
            return_type: self.return_type@,
            doc: optional_text(self.doc),
            return_type_def: match self.return_type_def {
                Some(definition) => Some(definition.model()),
                None => None,
            },
            param_defs: Seq::new(
                self.param_defs@.len(),
                |i: int| (self.param_defs@[i].0@, self.param_defs@[i].1.model()),
            ),
        }
    }
}

impl View for ContractStructField {
    type V = StructFieldModel;

    open spec fn view(&self) -> StructFieldModel {
        StructFieldModel {
            name: self.name@,
            type_label: self.type_label@,
            doc: optional_text(self.doc),
            type_def: match self.type_def {
                Some(definition) => Some(definition.model()),
                None => None,
            },
        }
    }
}

impl View for ContractStructDef {
    type V = StructDefModel;

    open spec fn view(&self) -> StructDefModel {
        StructDefModel {
            name: self.name@,
            fields: Seq::new(self.fields@.len(), |i: int| self.fields@[i]@),
            doc: optional_text(self.doc),
        }
    }
}

impl View for ContractEnumCase {
    type V = EnumDefCaseModel;

    open spec fn view(&self) -> EnumDefCaseModel {
        EnumDefCaseModel { name: self.name@, value: self.value, doc: optional_text(self.doc) }
    }
}

impl View for ContractEnumDef {
    type V = EnumDefModel;

    open spec fn view(&self) -> EnumDefModel {
        EnumDefModel {
            name: self.name@,
            cases: Seq::new(self.cases@.len(), |i: int| self.cases@[i]@),
            doc: optional_text(self.doc),
        }
    }
}

impl View for ContractUnionCase {
    type V = UnionDefCaseModel;

    open spec fn view(&self) -> UnionDefCaseModel {
        UnionDefCaseModel {
            name: self.name@,
            doc: optional_text(self.doc),
            value_types: match self.value_types {
                Some(types) => Some(type_models(types@)),
                None => None,
            },
            fields: match self.fields {
                Some(fields) => Some(Seq::new(fields@.len(), |i: int| fields@[i]@)),
                None => None,
            },
        }
    }
}

impl View for ContractUnionDef {
    type V = UnionDefModel;

    open spec fn view(&self) -> UnionDefModel {
        UnionDefModel {
            name: self.name@,
            cases: Seq::new(self.cases@.len(), |i: int| self.cases@[i]@),
            doc: optional_text(self.doc),
        }
    }
}

/// The models of a sequence of structs.
pub open spec fn struct_def_models(structs: Seq<ContractStructDef>) -> Seq<StructDefModel> {
    Seq::new(structs.len(), |i: int| structs[i]@)
}

impl View for ContractSpec {
    type V = ContractSpecModel;

    open spec fn view(&self) -> ContractSpecModel {
        ContractSpecModel {
            errors: Seq::new(self.errors@.len(), |i: int| self.errors@[i]@),
            functions: Seq::new(self.functions@.len(), |i: int| self.functions@[i]@),
            structs: struct_def_models(self.structs@),
            name: optional_text(self.name),
            version: optional_text(self.version),
            enums: Seq::new(self.enums@.len(), |i: int| self.enums@[i]@),
            unions: Seq::new(self.unions@.len(), |i: int| self.unions@[i]@),
        }
    }
}

/// A type as it is written in a signature.
pub open spec fn type_text(definition: TypeModel) -> Seq<char>
    decreases definition, 0nat,
{
    match definition {
        TypeModel::Val => "Val"@,
        TypeModel::Bool => "Bool"@,
        TypeModel::Void => "Void"@,
        TypeModel::Error => "Error"@,
        TypeModel::U32 => "U32"@,
        TypeModel::I32 => "I32"@,
        TypeModel::U64 => "U64"@,
        TypeModel::I64 => "I64"@,
        TypeModel::Timepoint => "Timepoint"@,
        TypeModel::Duration => "Duration"@,
        TypeModel::U128 => "U128"@,
        TypeModel::I128 => "I128"@,
        TypeModel::U256 => "U256"@,
        TypeModel::I256 => "I256"@,
        TypeModel::Bytes => "Bytes"@,
        TypeModel::BytesN(n) => "BytesN<"@ + decimal(n as nat) + ">"@,
        TypeModel::String => "String"@,
        TypeModel::Symbol => "Symbol"@,
        TypeModel::Address => "Address"@,
        TypeModel::Option(value) => "Option<"@ + type_text(*value) + ">"@,
        TypeModel::Result(ok, error) => "Result<"@ + type_text(*ok) + ", "@ + type_text(*error)
            + ">"@,
        TypeModel::Vec(element) => "Vec<"@ + type_text(*element) + ">"@,
        TypeModel::Mapping(key, value) => "Map<"@ + type_text(*key) + ", "@ + type_text(*value)
            + ">"@,
        TypeModel::Tuple(elements) => "("@ + type_list_text(elements, elements.len()) + ")"@,
        TypeModel::Udt(name) => name,
    }
}

/// The first `count` of `elements`, with a comma and a space between two of them.
pub open spec fn type_list_text(elements: Seq<TypeModel>, count: nat) -> Seq<char>
    decreases elements, count,
{
    if count == 0 || count > elements.len() {
        Seq::empty()
    } else if count == 1 {
        type_text(elements[0])
    } else {
        type_list_text(elements, (count - 1) as nat) + ", "@ + type_text(elements[count - 1])
    }
}

/// A documentation text, absent where it is empty.
pub open spec fn doc_of(text: Seq<char>) -> Option<Seq<char>> {
    if text.len() == 0 {
        None
    } else {
        Some(text)
    }
}

/// What a function entry says.
pub open spec fn function_of(function: FunctionModel) -> ContractFunctionModel {
    ContractFunctionModel {
        name: function.name,
        params: Seq::new(
            function.inputs.len(),
            |i: int| (function.inputs[i].name, type_text(function.inputs[i].type_)),
        ),
        return_type: if function.outputs.len() == 0 {
            "Void"@
        } else {
            type_text(function.outputs[0])
        },
        doc: doc_of(function.doc),
        return_type_def: if function.outputs.len() == 0 {
            Some(TypeModel::Void)
        } else {
            Some(function.outputs[0])
        },
        param_defs: Seq::new(
            function.inputs.len(),
            |i: int| (function.inputs[i].name, function.inputs[i].type_),
        ),
    }
}

/// What a field of a struct entry says.
pub open spec fn field_of(field: MemberModel) -> StructFieldModel {
    StructFieldModel {
        name: field.name,
        type_label: type_text(field.type_),
        doc: doc_of(field.doc),
        type_def: Some(field.type_),
    }
}

/// What a struct entry says.
pub open spec fn struct_of(definition: StructModel) -> StructDefModel {
    StructDefModel {
        name: definition.name,
        fields: Seq::new(definition.fields.len(), |i: int| field_of(definition.fields[i])),
        doc: doc_of(definition.doc),
    }
}

/// What a case of a union entry says.
pub open spec fn union_case_of(case: UnionCaseModel) -> UnionDefCaseModel {
    match case {
        UnionCaseModel::Void { doc, name } => UnionDefCaseModel {
            name,
            doc: doc_of(doc),
            value_types: None,
            fields: None,
        },
        UnionCaseModel::Tuple { doc, name, type_ } => UnionDefCaseModel {
            name,
            doc: doc_of(doc),
            value_types: Some(type_),
            fields: None,
        },
    }
}

/// What a union entry says.
pub open spec fn union_of(definition: UnionModel) -> UnionDefModel {
    UnionDefModel {
        name: definition.name,
        cases: Seq::new(definition.cases.len(), |i: int| union_case_of(definition.cases[i])),
        doc: doc_of(definition.doc),
    }
}

/// What a case of an enum entry says.
pub open spec fn enum_case_of(case: EnumCaseModel) -> EnumDefCaseModel {
    EnumDefCaseModel { name: case.name, value: case.value, doc: doc_of(case.doc) }
}

/// What an enum entry says.
pub open spec fn enum_of(definition: EnumModel) -> EnumDefModel {
    EnumDefModel {
        name: definition.name,
        cases: Seq::new(definition.cases.len(), |i: int| enum_case_of(definition.cases[i])),
        doc: doc_of(definition.doc),
    }
}

/// What a case of an error enum entry says: its name follows that of the enum, and
/// where it has no documentation it has that of the enum.
pub open spec fn error_of(definition: EnumModel, case: EnumCaseModel) -> ErrorEntryModel {
    ErrorEntryModel {
        code: case.value,
        name: definition.name + "::"@ + case.name,
        doc: if case.doc.len() == 0 {
            doc_of(definition.doc)
        } else {
            Some(case.doc)
        },
    }
}

/// What an error enum entry says.
pub open spec fn errors_of(definition: EnumModel) -> Seq<ErrorEntryModel> {
    Seq::new(definition.cases.len(), |i: int| error_of(definition, definition.cases[i]))
}

/// The specification without any entry.
pub open spec fn empty_spec() -> ContractSpecModel {
    ContractSpecModel {
        errors: Seq::empty(),
        functions: Seq::empty(),
        structs: Seq::empty(),
        name: None,
        version: None,
        enums: Seq::empty(),
        unions: Seq::empty(),
    }
}

/// What a specification says with one more entry at the end.
pub open spec fn with_entry(contract: ContractSpecModel, entry: EntryModel) -> ContractSpecModel {
    match entry {
        EntryModel::Function(function) => ContractSpecModel {
            functions: contract.functions.push(function_of(function)),
            ..contract
        },
        EntryModel::Struct(definition) => ContractSpecModel {
            structs: contract.structs.push(struct_of(definition)),
            ..contract
        },
        EntryModel::Union(definition) => ContractSpecModel {
            unions: contract.unions.push(union_of(definition)),
            ..contract
        },
        EntryModel::Enum(definition) => ContractSpecModel {
            enums: contract.enums.push(enum_of(definition)),
            ..contract
        },
        EntryModel::ErrorEnum(definition) => ContractSpecModel {
            errors: contract.errors + errors_of(definition),
            ..contract
        },
    }
}

/// What a sequence of entries says.
pub open spec fn spec_of(entries: Seq<EntryModel>) -> ContractSpecModel
    decreases entries.len(),
{
    if entries.len() == 0 {
        empty_spec()
    } else {
        with_entry(spec_of(entries.drop_last()), entries.last())
    }
}

/// Two specifications as one, what the first says before what the second says.
pub open spec fn joined(first: ContractSpecModel, second: ContractSpecModel) -> ContractSpecModel {
    ContractSpecModel {
        errors: first.errors + second.errors,
        functions: first.functions + second.functions,
        structs: first.structs + second.structs,
        name: None,
        version: None,
        enums: first.enums + second.enums,
        unions: first.unions + second.unions,
    }
}

/// The struct entries among `entries`, in order.
pub open spec fn structs_in(entries: Seq<EntryModel>) -> Seq<StructModel>
    decreases entries.len(),
{
    if entries.len() == 0 {
        Seq::empty()
    } else {
        match entries.last() {
            EntryModel::Struct(definition) => structs_in(entries.drop_last()).push(definition),
            _ => structs_in(entries.drop_last()),
        }
    }
}

/// What each of several struct entries says.
pub open spec fn structs_of(definitions: Seq<StructModel>) -> Seq<StructDefModel> {
    Seq::new(definitions.len(), |i: int| struct_of(definitions[i]))
}

/// The entries of the specification section of a WebAssembly module; none where the
/// module has no such section.
pub open spec fn spec_entries(wasm: Seq<u8>) -> Seq<EntryModel> {
    match section_named(payloads_in(wasm), "contractspecv0"@) {
        Some(section) => entries_in(section),
        None => Seq::empty(),
    }
}

/// A type as it is written in a signature.
pub fn format_type_def(type_def: &SpecType) -> (text: String)
    ensures
        text@ == type_text(type_def.model()),
    decreases *type_def,
{
    match type_def {
        SpecType::Val => owned("Val"),
        SpecType::Bool => owned("Bool"),
        SpecType::Void => owned("Void"),
        SpecType::Error => owned("Error"),
        SpecType::U32 => owned("U32"),
        SpecType::I32 => owned("I32"),
        SpecType::U64 => owned("U64"),
        SpecType::I64 => owned("I64"),
        SpecType::Timepoint => owned("Timepoint"),
        SpecType::Duration => owned("Duration"),
        SpecType::U128 => owned("U128"),
        SpecType::I128 => owned("I128"),
        SpecType::U256 => owned("U256"),
        SpecType::I256 => owned("I256"),
        SpecType::Bytes => owned("Bytes"),
        SpecType::BytesN(n) => {
            let mut text = owned("BytesN<");
            append_decimal(&mut text, *n as u64);
            append(&mut text, ">");
            text
        },
        SpecType::String => owned("String"),
        SpecType::Symbol => owned("Symbol"),
        SpecType::Address => owned("Address"),
        SpecType::Option(value) => one_parameter("Option<", format_type_def(value)),
        SpecType::Result(ok, error) => {
            let ok_text = format_type_def(ok);
            two_parameters("Result<", ok_text, format_type_def(error))
        },
        SpecType::Vec(element) => one_parameter("Vec<", format_type_def(element)),
        SpecType::Mapping(key, value) => {
            let key_text = format_type_def(key);
            two_parameters("Map<", key_text, format_type_def(value))
        },
        SpecType::Tuple(elements) => {
            let ghost models = type_def.model()->Tuple_0;
            let mut text = owned("(");
            let mut i: usize = 0;
            assert(text@ + type_list_text(models, 0) =~= text@);
            while i < elements.len()
                invariant
                    i <= elements@.len(),
                    *type_def == SpecType::Tuple(*elements),
                    models =~= type_models(elements@),
                    text@ == "("@ + type_list_text(models, i as nat),
                decreases elements@.len() - i,
            {
                if i > 0 {
                    append(&mut text, ", ");
                }
                assert(decreases_to!(*type_def => type_def->Tuple_0));
                assert(decreases_to!(type_def->Tuple_0 => elements@));
                assert(decreases_to!(elements@ => elements@[i as int]));
                let element = format_type_def(&elements[i]);
                append(&mut text, element.as_str());
                assert(text@ =~= "("@ + type_list_text(models, (i + 1) as nat));
                i += 1;
            }
            append(&mut text, ")");
            text
        },
        SpecType::Udt(name) => owned(name.as_str()),
    }
}

/// A type with one parameter; `opening` ends in the angle bracket.
fn one_parameter(opening: &str, parameter: String) -> (text: String)
    ensures
        text@ == opening@ + parameter@ + ">"@,
{
    let mut text = owned(opening);
    append(&mut text, parameter.as_str());
    append(&mut text, ">");
    text
}

/// A type with two parameters; `opening` ends in the angle bracket.
fn two_parameters(opening: &str, first: String, second: String) -> (text: String)
    ensures
        text@ == opening@ + first@ + ", "@ + second@ + ">"@,
{
    let mut text = owned(opening);
    append(&mut text, first.as_str());
    append(&mut text, ", ");
    append(&mut text, second.as_str());
    append(&mut text, ">");
    text
}

/// A documentation text, absent where it is empty.
fn doc_or_none(text: String) -> (doc: Option<String>)
    ensures
        optional_text(doc) == doc_of(text@),
{
    if text.as_str().is_empty() {
        None
    } else {
        Some(text)
    }
}

/// What a function entry says.
fn contract_function(function: SpecFunction) -> (decoded: ContractFunction)
    ensures
        decoded@ == function_of(function@),
{
    let mut params: Vec<(String, String)> = Vec::new();
    let mut param_defs: Vec<(String, SpecType)> = Vec::new();
    for input in inputs: function.inputs
        invariant
            inputs.seq() == function.inputs@,
            params@.len() == inputs.index(),
            param_defs@.len() == inputs.index(),
            forall|i: int|
                #![trigger params@[i]]
                0 <= i < params@.len() ==> params@[i].0@ == function.inputs@[i].name@
                    && params@[i].1@ == type_text(function.inputs@[i].type_.model()),
            forall|i: int|
                #![trigger param_defs@[i]]
                0 <= i < param_defs@.len() ==> param_defs@[i].0@ == function.inputs@[i].name@
                    && param_defs@[i].1 == function.inputs@[i].type_,
    {
        params.push((owned(input.name.as_str()), format_type_def(&input.type_)));
        param_defs.push((input.name, input.type_));
    }
    let mut outputs = function.outputs;
    let (return_type, return_type_def) = if outputs.len() == 0 {
        (owned("Void"), SpecType::Void)
    } else {
        let output = outputs.remove(0);
        (format_type_def(&output), output)
    };
    let decoded = ContractFunction {
        name: function.name,
        params,
        return_type,
        doc: doc_or_none(function.doc),
        return_type_def: Some(return_type_def),
        param_defs,
    };
    assert(decoded@.params =~= function_of(function@).params);
    assert(decoded@.param_defs =~= function_of(function@).param_defs);
    decoded
}

/// What a struct entry says.
fn contract_struct(definition: SpecStruct) -> (decoded: ContractStructDef)
    ensures
        decoded@ == struct_of(definition@),
{
    let mut fields: Vec<ContractStructField> = Vec::new();
    for field in members: definition.fields
        invariant
            members.seq() == definition.fields@,
            fields@.len() == members.index(),
            forall|i: int|
                0 <= i < fields@.len() ==> (#[trigger] fields@[i])@ == field_of(
                    definition.fields@[i]@,
                ),
    {
        fields.push(
            ContractStructField {
                name: field.name,
                type_label: format_type_def(&field.type_),
                doc: doc_or_none(field.doc),
                type_def: Some(field.type_),
            },
        );
    }
    let decoded = ContractStructDef {
        name: definition.name,
        fields,
        doc: doc_or_none(definition.doc),
    };
    assert(decoded@.fields =~= struct_of(definition@).fields);
    decoded
}

/// What a union entry says.
fn contract_union(definition: SpecUnion) -> (decoded: ContractUnionDef)
    ensures
        decoded@ == union_of(definition@),
{
    let mut cases: Vec<ContractUnionCase> = Vec::new();
    for case in members: definition.cases
        invariant
            members.seq() == definition.cases@,
            cases@.len() == members.index(),
            forall|i: int|
                0 <= i < cases@.len() ==> (#[trigger] cases@[i])@ == union_case_of(
                    definition.cases@[i]@,
                ),
    {
        cases.push(
            match case {
                SpecUnionCase::Void { doc, name } => ContractUnionCase {
                    name,
                    doc: doc_or_none(doc),
                    value_types: None,
                    fields: None,
                },
                SpecUnionCase::Tuple { doc, name, type_ } => ContractUnionCase {
                    name,
                    doc: doc_or_none(doc),
                    value_types: Some(type_),
                    fields: None,
                },
            },
        );
    }
    let decoded = ContractUnionDef {
        name: definition.name,
        cases,
        doc: doc_or_none(definition.doc),
    };
    assert(decoded@.cases =~= union_of(definition@).cases);
    decoded
}

/// What an enum entry says.
fn contract_enum(definition: SpecEnum) -> (decoded: ContractEnumDef)
    ensures
        decoded@ == enum_of(definition@),
{
    let mut cases: Vec<ContractEnumCase> = Vec::new();
    for case in members: definition.cases
        invariant
            members.seq() == definition.cases@,
            cases@.len() == members.index(),
            forall|i: int|
                0 <= i < cases@.len() ==> (#[trigger] cases@[i])@ == enum_case_of(
                    definition.cases@[i]@,
                ),
    {
        cases.push(
            ContractEnumCase { name: case.name, value: case.value, doc: doc_or_none(case.doc) },
        );
    }
    let decoded = ContractEnumDef {
        name: definition.name,
        cases,
        doc: doc_or_none(definition.doc),
    };
    assert(decoded@.cases =~= enum_of(definition@).cases);
    decoded
}

/// What an error enum entry says.
fn contract_errors(definition: SpecEnum) -> (decoded: Vec<ContractErrorEntry>)
    ensures
        Seq::new(decoded@.len(), |i: int| decoded@[i]@) == errors_of(definition@),
{
    let mut errors: Vec<ContractErrorEntry> = Vec::new();
    for case in members: definition.cases
        invariant
            members.seq() == definition.cases@,
            errors@.len() == members.index(),
            forall|i: int|
                0 <= i < errors@.len() ==> (#[trigger] errors@[i])@ == error_of(
                    definition@,
                    definition.cases@[i]@,
                ),
    {
        let mut name = owned(definition.name.as_str());
        append(&mut name, "::");
        append(&mut name, case.name.as_str());
        let doc = if case.doc.as_str().is_empty() {
            doc_or_none(owned(definition.doc.as_str()))
        } else {
            Some(case.doc)
        };
        errors.push(ContractErrorEntry { code: case.value, name, doc });
    }
    assert(Seq::new(errors@.len(), |i: int| errors@[i]@) =~= errors_of(definition@));
    errors
}

/// What a sequence of entries says.
pub fn build_contract_spec(entries: Vec<SpecEntry>) -> (decoded: ContractSpec)
    ensures
        decoded@ == spec_of(entry_models(entries@)),
{
    let mut decoded = ContractSpec {
        errors: Vec::new(),
        functions: Vec::new(),
        structs: Vec::new(),
        name: None,
        version: None,
        enums: Vec::new(),
        unions: Vec::new(),
    };
    let ghost models = entry_models(entries@);
    assert(decoded@ =~= spec_of(models.take(0)));
    for entry in items: entries
        invariant
            items.seq() == entries@,
            models == entry_models(entries@),
            decoded@ == spec_of(models.take(items.index() as int)),
    {
        let ghost next = models.take(items.index() + 1);
        let ghost before = decoded@;
        assert(next.drop_last() =~= models.take(items.index() as int));
        assert(next.last() == entry@);
        match entry {
            SpecEntry::Function(function) => {
                decoded.functions.push(contract_function(function));
            },
            SpecEntry::Struct(definition) => {
                decoded.structs.push(contract_struct(definition));
            },
            SpecEntry::Union(definition) => {
                decoded.unions.push(contract_union(definition));
            },
            SpecEntry::Enum(definition) => {
                decoded.enums.push(contract_enum(definition));
            },
            SpecEntry::ErrorEnum(definition) => {
                let mut errors = contract_errors(definition);
                decoded.errors.append(&mut errors);
            },
        }
        assert(decoded@ =~= with_entry(before, next.last()));
    }
    assert(models.take(models.len() as int) =~= models);
    decoded
}

/// The struct entries among `entries`, in order.
pub fn select_structs(entries: Vec<SpecEntry>) -> (structs: Vec<SpecStruct>)
    ensures
        struct_models(structs@) == structs_in(entry_models(entries@)),
{
    let mut structs: Vec<SpecStruct> = Vec::new();
    let ghost models = entry_models(entries@);
    assert(struct_models(structs@) =~= structs_in(models.take(0)));
    for entry in items: entries
        invariant
            items.seq() == entries@,
            models == entry_models(entries@),
            struct_models(structs@) == structs_in(models.take(items.index() as int)),
    {
        let ghost next = models.take(items.index() + 1);
        let ghost before = structs@;
        assert(next.drop_last() =~= models.take(items.index() as int));
        assert(next.last() == entry@);
        match entry {
            SpecEntry::Struct(definition) => {
                structs.push(definition);
                assert(struct_models(structs@) =~= struct_models(before).push(definition@));
            },
            SpecEntry::Function(_) => {},
            SpecEntry::Union(_) => {},
            SpecEntry::Enum(_) => {},
            SpecEntry::ErrorEnum(_) => {},
        }
    }
    assert(models.take(models.len() as int) =~= models);
    structs
}

/// What several struct entries say.
pub fn decode_structs(definitions: Vec<SpecStruct>) -> (structs: Vec<ContractStructDef>)
    ensures
        struct_def_models(structs@) == structs_of(struct_models(definitions@)),
{
    let mut structs: Vec<ContractStructDef> = Vec::new();
    for definition in items: definitions
        invariant
            items.seq() == definitions@,
            structs@.len() == items.index(),
            forall|i: int|
                0 <= i < structs@.len() ==> (#[trigger] structs@[i])@ == struct_of(
                    definitions@[i]@,
                ),
    {
        structs.push(contract_struct(definition));
    }
    assert(struct_def_models(structs@) =~= structs_of(struct_models(definitions@)));
    structs
}

/// Decodes the specification of the contract in a WebAssembly module.
///
/// It never fails: a module without a specification section has the specification
/// without any entry, and where the section is malformed the entries before that place
/// are decoded.
pub fn decode_contract_spec(wasm_bytes: &[u8]) -> (decoded: GratResult<ContractSpec>)
    ensures
        decoded matches Ok(contract) && contract@ == spec_of(spec_entries(wasm_bytes@)),
{
    match SpecParser::extract_spec(wasm_bytes) {
        Ok(section) => Ok(build_contract_spec(read_entries(section.as_slice()))),
        Err(_) => {
            let entries: Vec<SpecEntry> = Vec::new();
            assert(entry_models(entries@) =~= spec_entries(wasm_bytes@));
            Ok(build_contract_spec(entries))
        },
    }
}

/// Takes the specification of a contract out of a WebAssembly module.
pub struct SpecParser;

impl SpecParser {
    /// The contents of the specification section.
    pub fn extract_spec(wasm_bytes: &[u8]) -> (section: GratResult<Vec<u8>>)
        ensures
            match section {
                Ok(bytes) => section_named(payloads_in(wasm_bytes@), "contractspecv0"@) == Some(
                    bytes@,
                ),
                Err(error) => section_named(payloads_in(wasm_bytes@), "contractspecv0"@) is None
                    && error@ == section_missing("contractspecv0"@),
            },
    {
        Self::extract_raw_section(wasm_bytes, "contractspecv0")
    }

    /// The contents of the first custom section called `section_name`.
    pub fn extract_raw_section(wasm_bytes: &[u8], section_name: &str) -> (section: GratResult<
        Vec<u8>,
    >)
        ensures
            match section {
                Ok(bytes) => section_named(payloads_in(wasm_bytes@), section_name@) == Some(bytes@),
                Err(error) => section_named(payloads_in(wasm_bytes@), section_name@) is None
                    && error@ == section_missing(section_name@),
            },
    {
        match find_section(parse_payloads(wasm_bytes), section_name) {
            Some(bytes) => Ok(bytes),
            None => {
                let mut message = owned(section_name);
                append(&mut message, " custom section not found");
                Err(GratError::SpecError(message))
            },
        }
    }

    /// The structs that the specification defines, decoded.
    pub fn extract_structs(wasm_bytes: &[u8]) -> (structs: GratResult<Vec<ContractStructDef>>)
        ensures
            structs matches Ok(definitions) && struct_def_models(definitions@) == structs_of(
                structs_in(spec_entries(wasm_bytes@)),
            ),
    {
        match Self::extract_raw_structs(wasm_bytes) {
            Ok(definitions) => Ok(decode_structs(definitions)),
            Err(error) => Err(error),
        }
    }

    /// The structs that the specification defines, as they stand in it.
    pub fn extract_raw_structs(wasm_bytes: &[u8]) -> (structs: GratResult<Vec<SpecStruct>>)
        ensures
            structs matches Ok(definitions) && struct_models(definitions@) == structs_in(
                spec_entries(wasm_bytes@),
            ),
    {
        match Self::extract_spec(wasm_bytes) {
            Ok(section) => Ok(select_structs(read_entries(section.as_slice()))),
            Err(_) => {
                let structs: Vec<SpecStruct> = Vec::new();
                assert(struct_models(structs@) =~= structs_in(spec_entries(wasm_bytes@)));
                Ok(structs)
            },
        }
    }
}

/// The first error of the specification with the given code.
pub fn resolve_error_code(contract: &ContractSpec, error_code: u32) -> (found: Option<
    &ContractErrorEntry,
>)
    ensures
        match found {
            Some(entry) => exists|i: int|
                0 <= i < contract.errors@.len() && *entry == #[trigger] contract.errors@[i]
                    && entry.code == error_code && forall|j: int|
                    0 <= j < i ==> (#[trigger] contract.errors@[j]).code != error_code,
            None => forall|i: int|
                0 <= i < contract.errors@.len() ==> (#[trigger] contract.errors@[i]).code
                    != error_code,
        },
{
    let mut i: usize = 0;
    while i < contract.errors.len()
        invariant
            i <= contract.errors@.len(),
            forall|j: int| 0 <= j < i ==> (#[trigger] contract.errors@[j]).code != error_code,
        decreases contract.errors@.len() - i,
    {
        if contract.errors[i].code == error_code {
            return Some(&contract.errors[i]);
        }
        i += 1;
    }
    None
}

/// What two runs of entries say, one after the other, is what they say together: each
/// list keeps the order of the entries.
pub proof fn spec_of_concatenation(first: Seq<EntryModel>, second: Seq<EntryModel>)
    ensures
        spec_of(first + second) == joined(spec_of(first), spec_of(second)),
    decreases second.len(),
{
    let whole = first + second;
    if second.len() == 0 {
        assert(whole =~= first);
        no_name_or_version(first);
    } else {
        assert(whole.drop_last() =~= first + second.drop_last());
        spec_of_concatenation(first, second.drop_last());
    }
    assert(spec_of(whole) =~= joined(spec_of(first), spec_of(second)));
}

/// No specification has a name or a version: no entry states one.
pub proof fn no_name_or_version(entries: Seq<EntryModel>)
    ensures
        spec_of(entries).name is None,
        spec_of(entries).version is None,
    decreases entries.len(),
{
    if entries.len() > 0 {
        no_name_or_version(entries.drop_last());
    }
}

/// The structs of the decoded specification are the decoded struct entries: what
/// `extract_structs` returns, one for one what `extract_raw_structs` returns.
pub proof fn decoded_structs_are_the_struct_entries(entries: Seq<EntryModel>)
    ensures
        spec_of(entries).structs == structs_of(structs_in(entries)),
    decreases entries.len(),
{
    if entries.len() > 0 {
        decoded_structs_are_the_struct_entries(entries.drop_last());
    }
    assert(spec_of(entries).structs =~= structs_of(structs_in(entries)));
}

/// Every case of every error enum is among the errors of the decoded specification.
pub proof fn every_error_case_is_decoded(
    entries: Seq<EntryModel>,
    at: int,
    definition: EnumModel,
    case: int,
)
    requires
        0 <= at < entries.len(),
        entries[at] == EntryModel::ErrorEnum(definition),
        0 <= case < definition.cases.len(),
    ensures
        spec_of(entries).errors.contains(error_of(definition, definition.cases[case])),
    decreases entries.len(),
{
    let error = error_of(definition, definition.cases[case]);
    let rest = spec_of(entries.drop_last()).errors;
    if at == entries.len() - 1 {
        assert(spec_of(entries).errors[rest.len() + case] == error);
    } else {
        every_error_case_is_decoded(entries.drop_last(), at, definition, case);
        let i = choose|i: int| 0 <= i < rest.len() && rest[i] == error;
        assert(spec_of(entries).errors[i] == error);
    }
}

} // verus!
