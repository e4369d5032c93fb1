//! What holds of a decoded specification, field by field.
//!
//! The laws speak of the entries' own fields and of the fields of what was decoded from
//! them.

use vstd::prelude::*;

use crate::contract_spec::decoder::{
    enum_case_of, enum_of, error_of, field_of, function_of, spec_entries, spec_of,
    struct_def_models, struct_of, structs_in, structs_of, type_list_text, type_text,
    union_case_of, union_of, ContractEnumCase, ContractErrorEntry, ContractFunction, ContractSpec,
    ContractStructDef, ContractStructField, ContractUnionCase,
};
use crate::contract_spec::types::{
    entry_models, struct_models, EntryModel, SpecEntry, SpecEnumCase, SpecFunction, SpecMember,
    SpecStruct, SpecType, SpecUnionCase, TypeModel,
};
use crate::contract_spec::wasm::{
    payload_models, payloads_in, section_missing, section_named, PayloadModel, WasmPayload,
};
use crate::contract_spec::xdr::{entries_in, first_entry};
use crate::error::GratError;
use crate::text::decimal;

verus! {

/// How many of the entries are functions.
pub open spec fn functions_among(entries: Seq<SpecEntry>) -> nat
    decreases entries.len(),
{
    if entries.len() == 0 {
        0
    } else {
        functions_among(entries.drop_last()) + if entries.last() is Function {
            1nat
        } else {
            0
        }
    }
}

/// How many of the entries are structs.
pub open spec fn structs_among(entries: Seq<SpecEntry>) -> nat
    decreases entries.len(),
{
    if entries.len() == 0 {
        0
    } else {
        structs_among(entries.drop_last()) + if entries.last() is Struct {
            1nat
        } else {
            0
        }
    }
}

/// How many of the entries are unions.
pub open spec fn unions_among(entries: Seq<SpecEntry>) -> nat
    decreases entries.len(),
{
    if entries.len() == 0 {
        0
    } else {
        unions_among(entries.drop_last()) + if entries.last() is Union {
            1nat
        } else {
            0
        }
    }
}

/// How many of the entries are enums.
pub open spec fn enums_among(entries: Seq<SpecEntry>) -> nat
    decreases entries.len(),
{
    if entries.len() == 0 {
        0
    } else {
        enums_among(entries.drop_last()) + if entries.last() is Enum {
            1nat
        } else {
            0
        }
    }
}

/// How many cases the error enums among the entries have.
pub open spec fn error_cases_among(entries: Seq<SpecEntry>) -> nat
    decreases entries.len(),
{
    if entries.len() == 0 {
        0
    } else {
        error_cases_among(entries.drop_last()) + match entries.last() {
            SpecEntry::ErrorEnum(definition) => definition.cases@.len(),
            _ => 0,
        }
    }
}

/// Whether `doc` is the documentation that `text` is: none where the text is empty.
pub open spec fn documents(doc: Option<String>, text: String) -> bool {
    match doc {
        Some(doc) => text@.len() > 0 && doc@ == text@,
        None => text@.len() == 0,
    }
}

/// Whether `own` says of a struct's field what `field` says.
pub open spec fn tells_field(own: ContractStructField, field: SpecMember) -> bool {
    &&& own.name@ == field.name@
    &&& own.type_label@ == type_text(field.type_.model())
    &&& own.type_def matches Some(definition) && definition.model() == field.type_.model()
    &&& documents(own.doc, field.doc)
}

/// Whether `own` says of a struct what `definition` says: its name, its documentation and
/// its fields one for one.
pub open spec fn tells_struct(own: ContractStructDef, definition: SpecStruct) -> bool {
    &&& own.name@ == definition.name@
    &&& documents(own.doc, definition.doc)
    &&& own.fields@.len() == definition.fields@.len()
    &&& forall|i: int|
        0 <= i < own.fields@.len() ==> tells_field(#[trigger] own.fields@[i], definition.fields@[i])
}

/// Whether `own` says of a union's case what `case` says.
pub open spec fn tells_union_case(own: ContractUnionCase, case: SpecUnionCase) -> bool {
    &&& own.fields is None
    &&& match case {
        SpecUnionCase::Void { doc, name } => own.name@ == name@ && documents(own.doc, doc)
            && own.value_types is None,
        SpecUnionCase::Tuple { doc, name, type_ } => {
            &&& own.name@ == name@
            &&& documents(own.doc, doc)
            &&& own.value_types matches Some(types) && types@.len() == type_@.len() && forall|
                i: int,
            |
                0 <= i < types@.len() ==> (#[trigger] types@[i]).model() == type_@[i].model()
        },
    }
}

/// Whether `own` says of an enum's case what `case` says.
pub open spec fn tells_enum_case(own: ContractEnumCase, case: SpecEnumCase) -> bool {
    &&& own.name@ == case.name@
    &&& own.value == case.value
    &&& documents(own.doc, case.doc)
}

/// Whether `own` says of a function what `function` says: its name, its documentation, its
/// parameters one for one, and what it returns, which is nothing where no output is given.
pub open spec fn tells_function(own: ContractFunction, function: SpecFunction) -> bool {
    &&& own.name@ == function.name@
    &&& documents(own.doc, function.doc)
    &&& own.params@.len() == function.inputs@.len()
    &&& own.param_defs@.len() == function.inputs@.len()
    &&& forall|i: int|
        #![trigger own.params@[i]]
        0 <= i < own.params@.len() ==> own.params@[i].0@ == function.inputs@[i].name@
            && own.params@[i].1@ == type_text(function.inputs@[i].type_.model())
    &&& forall|i: int|
        #![trigger own.param_defs@[i]]
        0 <= i < own.param_defs@.len() ==> own.param_defs@[i].0@ == function.inputs@[i].name@
            && own.param_defs@[i].1.model() == function.inputs@[i].type_.model()
    &&& function.outputs@.len() == 0 ==> own.return_type@ == "Void"@ && (
    own.return_type_def matches Some(definition) && definition.model() is Void)
    &&& function.outputs@.len() > 0 ==> own.return_type@ == type_text(
        function.outputs@[0].model(),
    ) && (own.return_type_def matches Some(definition) && definition.model()
        == function.outputs@[0].model())
}

/// Whether `own` says of an error what the case of the error enum says: the enum's name,
/// two colons and the name of the case, the code, and the documentation of the case or
/// else that of the enum.
pub open spec fn tells_error(
    own: ContractErrorEntry,
    enum_name: String,
    enum_doc: String,
    case: SpecEnumCase,
) -> bool {
    &&& own.code == case.value
    &&& own.name@ == enum_name@ + "::"@ + case.name@
    &&& if case.doc@.len() > 0 {
        own.doc matches Some(doc) && doc@ == case.doc@
    } else {
        documents(own.doc, enum_doc)
    }
}

/// How many functions, structs, unions, enums and errors are decoded.
proof fn decoded_sizes(entries: Seq<SpecEntry>)
    ensures
        spec_of(entry_models(entries)).functions.len() == functions_among(entries),
        spec_of(entry_models(entries)).structs.len() == structs_among(entries),
        spec_of(entry_models(entries)).unions.len() == unions_among(entries),
        spec_of(entry_models(entries)).enums.len() == enums_among(entries),
        spec_of(entry_models(entries)).errors.len() == error_cases_among(entries),
        structs_in(entry_models(entries)).len() == structs_among(entries),
    decreases entries.len(),
{
    if entries.len() > 0 {
        assert(entry_models(entries).drop_last() =~= entry_models(entries.drop_last()));
        assert(entry_models(entries).last() == entries.last()@);
        decoded_sizes(entries.drop_last());
    }
}

/// Where what an entry says stands in the decoded specification.
proof fn decoded_place(entries: Seq<SpecEntry>, at: int)
    requires
        0 <= at < entries.len(),
    ensures
        ({
            let decoded = spec_of(entry_models(entries));
            let before = entries.take(at);
            match entries[at] {
                SpecEntry::Function(function) => functions_among(before) < decoded.functions.len()
                    && decoded.functions[functions_among(before) as int] == function_of(function@),
                SpecEntry::Struct(definition) => structs_among(before) < decoded.structs.len()
                    && decoded.structs[structs_among(before) as int] == struct_of(definition@)
                    && structs_in(entry_models(entries))[structs_among(before) as int]
                    == definition@,
                SpecEntry::Union(definition) => unions_among(before) < decoded.unions.len()
                    && decoded.unions[unions_among(before) as int] == union_of(definition@),
                SpecEntry::Enum(definition) => enums_among(before) < decoded.enums.len()
                    && decoded.enums[enums_among(before) as int] == enum_of(definition@),
                SpecEntry::ErrorEnum(definition) => error_cases_among(before)
                    + definition.cases@.len() <= decoded.errors.len() && forall|i: int|
                    0 <= i < definition.cases@.len()
                        ==> #[trigger] decoded.errors[error_cases_among(before) + i] == error_of(
                        definition@,
                        definition.cases@[i]@,
                    ),
            }
        }),
    decreases entries.len(),
{
    let rest = entries.drop_last();
    assert(entry_models(entries).drop_last() =~= entry_models(rest));
    assert(entry_models(entries).last() == entries.last()@);
    decoded_sizes(rest);
    decoded_sizes(entries);
    if at == entries.len() - 1 {
        assert(entries.take(at) =~= rest);
    } else {
        decoded_place(rest, at);
        assert(rest.take(at) =~= entries.take(at));
        assert(rest[at] == entries[at]);
    }
}

/// Every function entry is decoded: at the same place among the functions stands a
/// function that says what the entry says, and no others are there.
pub proof fn functions_are_decoded(
    entries: Seq<SpecEntry>,
    contract: ContractSpec,
    at: int,
    function: SpecFunction,
)
    requires
        contract@ == spec_of(entry_models(entries)),
        0 <= at < entries.len(),
        entries[at] == SpecEntry::Function(function),
    ensures
        contract.functions@.len() == functions_among(entries),
        functions_among(entries.take(at)) < contract.functions@.len(),
        tells_function(contract.functions@[functions_among(entries.take(at)) as int], function),
{
    decoded_sizes(entries);
    decoded_place(entries, at);
    let own = contract.functions@[functions_among(entries.take(at)) as int];
    assert(contract@.functions.len() == contract.functions@.len());
    assert(own@ == function_of(function@));
    assert(own@.params.len() == own.params@.len());
    assert(own@.param_defs.len() == own.param_defs@.len());
    assert(function@.inputs.len() == function.inputs@.len());
    assert(function@.outputs.len() == function.outputs@.len());
    assert forall|i: int|
        #![trigger own.params@[i]]
        0 <= i < own.params@.len() implies own.params@[i].0@ == function.inputs@[i].name@
        && own.params@[i].1@ == type_text(function.inputs@[i].type_.model()) by {
        assert(own@.params[i] == (own.params@[i].0@, own.params@[i].1@));
        assert(function@.inputs[i] == function.inputs@[i]@);
    }
    assert forall|i: int|
        #![trigger own.param_defs@[i]]
        0 <= i < own.param_defs@.len() implies own.param_defs@[i].0@ == function.inputs@[i].name@
        && own.param_defs@[i].1.model() == function.inputs@[i].type_.model() by {
        assert(own@.param_defs[i] == (own.param_defs@[i].0@, own.param_defs@[i].1.model()));
        assert(function@.inputs[i] == function.inputs@[i]@);
    }
}

/// A struct that is seen as what a struct entry says says so field by field.
proof fn struct_is_told(own: ContractStructDef, definition: SpecStruct)
    requires
        own@ == struct_of(definition@),
    ensures
        tells_struct(own, definition),
{
    assert(own@.fields.len() == own.fields@.len());
    assert forall|i: int| 0 <= i < own.fields@.len() implies tells_field(
        #[trigger] own.fields@[i],
        definition.fields@[i],
    ) by {
        assert(own@.fields[i] == own.fields@[i]@);
        assert(own@.fields[i] == field_of(definition@.fields[i]));
        assert(definition@.fields[i] == definition.fields@[i]@);
    }
}

/// Every struct entry is decoded: at the same place among the structs stands a struct that
/// says what the entry says, and no others are there.
pub proof fn structs_are_decoded(
    entries: Seq<SpecEntry>,
    contract: ContractSpec,
    at: int,
    definition: SpecStruct,
)
    requires
        contract@ == spec_of(entry_models(entries)),
        0 <= at < entries.len(),
        entries[at] == SpecEntry::Struct(definition),
    ensures
        contract.structs@.len() == structs_among(entries),
        structs_among(entries.take(at)) < contract.structs@.len(),
        tells_struct(contract.structs@[structs_among(entries.take(at)) as int], definition),
{
    decoded_sizes(entries);
    decoded_place(entries, at);
    let own = contract.structs@[structs_among(entries.take(at)) as int];
    assert(contract@.structs.len() == contract.structs@.len());
    assert(own@ == struct_of(definition@));
    struct_is_told(own, definition);
}

/// The struct entries alone, as they stand and decoded, are those of the specification at
/// the same places, and no others.
pub proof fn structs_are_taken_out(
    entries: Seq<SpecEntry>,
    taken: Seq<SpecStruct>,
    decoded: Seq<ContractStructDef>,
    at: int,
    definition: SpecStruct,
)
    requires
        struct_models(taken) == structs_in(entry_models(entries)),
        struct_def_models(decoded) == structs_of(structs_in(entry_models(entries))),
        0 <= at < entries.len(),
        entries[at] == SpecEntry::Struct(definition),
    ensures
        taken.len() == structs_among(entries),
        decoded.len() == structs_among(entries),
        structs_among(entries.take(at)) < taken.len(),
        ({
            let own = taken[structs_among(entries.take(at)) as int];
            &&& own.name@ == definition.name@
            &&& own.lib@ == definition.lib@
            &&& own.doc@ == definition.doc@
            &&& own.fields@.len() == definition.fields@.len()
            &&& forall|i: int|
                #![trigger own.fields@[i]]
                0 <= i < own.fields@.len() ==> own.fields@[i].name@ == definition.fields@[i].name@
                    && own.fields@[i].doc@ == definition.fields@[i].doc@
                    && own.fields@[i].type_.model() == definition.fields@[i].type_.model()
        }),
        tells_struct(decoded[structs_among(entries.take(at)) as int], definition),
{
    decoded_sizes(entries);
    decoded_place(entries, at);
    let place = structs_among(entries.take(at)) as int;
    assert(struct_models(taken).len() == taken.len());
    assert(struct_def_models(decoded).len() == decoded.len());
    let own = taken[place];
    assert(struct_models(taken)[place] == own@);
    assert(own@.fields.len() == own.fields@.len());
    assert(definition@.fields.len() == definition.fields@.len());
    assert forall|i: int|
        #![trigger own.fields@[i]]
        0 <= i < own.fields@.len() implies own.fields@[i].name@ == definition.fields@[i].name@
        && own.fields@[i].doc@ == definition.fields@[i].doc@ && own.fields@[i].type_.model()
        == definition.fields@[i].type_.model() by {
        assert(own@.fields[i] == own.fields@[i]@);
        assert(definition@.fields[i] == definition.fields@[i]@);
    }
    assert(struct_def_models(decoded)[place] == decoded[place]@);
    struct_is_told(decoded[place], definition);
}

/// Without a struct entry there is no struct.
pub proof fn no_structs_without_an_entry(entries: Seq<SpecEntry>)
    requires
        forall|i: int| 0 <= i < entries.len() ==> !(#[trigger] entries[i] is Struct),
    ensures
        structs_in(entry_models(entries)).len() == 0,
        structs_of(structs_in(entry_models(entries))).len() == 0,
        spec_of(entry_models(entries)).structs.len() == 0,
    decreases entries.len(),
{
    decoded_sizes(entries);
    if entries.len() > 0 {
        no_structs_without_an_entry(entries.drop_last());
        decoded_sizes(entries.drop_last());
        assert(!(entries[entries.len() - 1] is Struct));
    }
}

/// Every union entry is decoded: at the same place among the unions stands a union with
/// the name of the entry, its documentation, and its cases one for one, and no others are
/// there.
pub proof fn unions_are_decoded(entries: Seq<SpecEntry>, contract: ContractSpec, at: int)
    requires
        contract@ == spec_of(entry_models(entries)),
        0 <= at < entries.len(),
        entries[at] is Union,
    ensures
        contract.unions@.len() == unions_among(entries),
        unions_among(entries.take(at)) < contract.unions@.len(),
        ({
            let own = contract.unions@[unions_among(entries.take(at)) as int];
            let definition = entries[at]->Union_0;
            &&& own.name@ == definition.name@
            &&& documents(own.doc, definition.doc)
            &&& own.cases@.len() == definition.cases@.len()
            &&& forall|i: int|
                0 <= i < own.cases@.len() ==> tells_union_case(
                    #[trigger] own.cases@[i],
                    definition.cases@[i],
                )
        }),
{
    decoded_sizes(entries);
    decoded_place(entries, at);
    let own = contract.unions@[unions_among(entries.take(at)) as int];
    let definition = entries[at]->Union_0;
    assert(contract@.unions.len() == contract.unions@.len());
    assert(own@ == union_of(definition@));
    assert(own@.cases.len() == own.cases@.len());
    assert forall|i: int| 0 <= i < own.cases@.len() implies tells_union_case(
        #[trigger] own.cases@[i],
        definition.cases@[i],
    ) by {
        assert(own@.cases[i] == own.cases@[i]@);
        assert(own@.cases[i] == union_case_of(definition@.cases[i]));
        assert(definition@.cases[i] == definition.cases@[i]@);
        if let SpecUnionCase::Tuple { doc, name, type_ } = definition.cases@[i] {
            let types = own.cases@[i].value_types->0;
            let models = own.cases@[i]@.value_types->0;
            assert(models.len() == types@.len());
            assert(definition.cases@[i]@->Tuple_type_.len() == type_@.len());
            assert forall|j: int| 0 <= j < types@.len() implies (#[trigger] types@[j]).model()
                == type_@[j].model() by {
                assert(models[j] == types@[j].model());
                assert(definition.cases@[i]@->Tuple_type_[j] == type_@[j].model());
            }
        }
    }
}

/// Every enum entry is decoded: at the same place among the enums stands an enum with the
/// name of the entry, its documentation, and its cases one for one, and no others are
/// there.
pub proof fn enums_are_decoded(entries: Seq<SpecEntry>, contract: ContractSpec, at: int)
    requires
        contract@ == spec_of(entry_models(entries)),
        0 <= at < entries.len(),
        entries[at] is Enum,
    ensures
        contract.enums@.len() == enums_among(entries),
        enums_among(entries.take(at)) < contract.enums@.len(),
        ({
            let own = contract.enums@[enums_among(entries.take(at)) as int];
            let definition = entries[at]->Enum_0;
            &&& own.name@ == definition.name@
            &&& documents(own.doc, definition.doc)
            &&& own.cases@.len() == definition.cases@.len()
            &&& forall|i: int|
                0 <= i < own.cases@.len() ==> tells_enum_case(
                    #[trigger] own.cases@[i],
                    definition.cases@[i],
                )
        }),
{
    decoded_sizes(entries);
    decoded_place(entries, at);
    let own = contract.enums@[enums_among(entries.take(at)) as int];
    let definition = entries[at]->Enum_0;
    assert(contract@.enums.len() == contract.enums@.len());
    assert(own@ == enum_of(definition@));
    assert(own@.cases.len() == own.cases@.len());
    assert forall|i: int| 0 <= i < own.cases@.len() implies tells_enum_case(
        #[trigger] own.cases@[i],
        definition.cases@[i],
    ) by {
        assert(own@.cases[i] == own.cases@[i]@);
        assert(own@.cases[i] == enum_case_of(definition@.cases[i]));
        assert(definition@.cases[i] == definition.cases@[i]@);
    }
}

/// Every case of every error enum is decoded: the errors of the earlier error enums come
/// first, then those of the enum in the order of its cases, and no others are there.
pub proof fn errors_are_decoded(
    entries: Seq<SpecEntry>,
    contract: ContractSpec,
    at: int,
    case: int,
)
    requires
        contract@ == spec_of(entry_models(entries)),
        0 <= at < entries.len(),
        entries[at] is ErrorEnum,
        0 <= case < entries[at]->ErrorEnum_0.cases@.len(),
    ensures
        contract.errors@.len() == error_cases_among(entries),
        error_cases_among(entries.take(at)) + case < contract.errors@.len(),
        tells_error(
            contract.errors@[error_cases_among(entries.take(at)) + case],
            entries[at]->ErrorEnum_0.name,
            entries[at]->ErrorEnum_0.doc,
            entries[at]->ErrorEnum_0.cases@[case],
        ),
{
    decoded_sizes(entries);
    decoded_place(entries, at);
    let place = error_cases_among(entries.take(at)) + case;
    let own = contract.errors@[place];
    let definition = entries[at]->ErrorEnum_0;
    assert(contract@.errors.len() == contract.errors@.len());
    assert(contract@.errors[place] == own@);
    assert(own@ == error_of(definition@, definition.cases@[case]@));
}

/// How many definitions of each kind are decoded, where there may be none; a name or a
/// version there never is.
pub proof fn nothing_else_is_decoded(entries: Seq<SpecEntry>, contract: ContractSpec)
    requires
        contract@ == spec_of(entry_models(entries)),
    ensures
        contract.functions@.len() == functions_among(entries),
        contract.structs@.len() == structs_among(entries),
        contract.unions@.len() == unions_among(entries),
        contract.enums@.len() == enums_among(entries),
        contract.errors@.len() == error_cases_among(entries),
        contract.name is None,
        contract.version is None,
{
    decoded_sizes(entries);
    crate::contract_spec::decoder::no_name_or_version(entry_models(entries));
    assert(contract@.functions.len() == contract.functions@.len());
    assert(contract@.structs.len() == contract.structs@.len());
    assert(contract@.unions.len() == contract.unions@.len());
    assert(contract@.enums.len() == contract.enums@.len());
    assert(contract@.errors.len() == contract.errors@.len());
}

/// How a type is written, kind by kind.
pub proof fn types_are_written_by_their_kind(
    n: u32,
    name: Seq<char>,
    first: TypeModel,
    second: TypeModel,
)
    ensures
        type_text(TypeModel::Val) == "Val"@,
        type_text(TypeModel::Bool) == "Bool"@,
        type_text(TypeModel::Void) == "Void"@,
        type_text(TypeModel::Error) == "Error"@,
        type_text(TypeModel::U32) == "U32"@,
        type_text(TypeModel::I32) == "I32"@,
        type_text(TypeModel::U64) == "U64"@,
        type_text(TypeModel::I64) == "I64"@,
        type_text(TypeModel::Timepoint) == "Timepoint"@,
        type_text(TypeModel::Duration) == "Duration"@,
        type_text(TypeModel::U128) == "U128"@,
        type_text(TypeModel::I128) == "I128"@,
        type_text(TypeModel::U256) == "U256"@,
        type_text(TypeModel::I256) == "I256"@,
        type_text(TypeModel::Bytes) == "Bytes"@,
        type_text(TypeModel::String) == "String"@,
        type_text(TypeModel::Symbol) == "Symbol"@,
        type_text(TypeModel::Address) == "Address"@,
        type_text(TypeModel::BytesN(n)) == "BytesN<"@ + decimal(n as nat) + ">"@,
        type_text(TypeModel::Udt(name)) == name,
        type_text(TypeModel::Option(Box::new(first))) == "Option<"@ + type_text(first) + ">"@,
        type_text(TypeModel::Vec(Box::new(first))) == "Vec<"@ + type_text(first) + ">"@,
        type_text(TypeModel::Result(Box::new(first), Box::new(second))) == "Result<"@ + type_text(
            first,
        ) + ", "@ + type_text(second) + ">"@,
        type_text(TypeModel::Mapping(Box::new(first), Box::new(second))) == "Map<"@ + type_text(
            first,
        ) + ", "@ + type_text(second) + ">"@,
{
    reveal_with_fuel(type_text, 2);
}

/// The first elements of a tuple are written the same whatever follows them.
proof fn tuple_prefix(elements: Seq<TypeModel>, last: TypeModel, count: nat)
    requires
        count <= elements.len(),
    ensures
        type_list_text(elements.push(last), count) == type_list_text(elements, count),
    decreases count,
{
    if count > 0 {
        tuple_prefix(elements, last, (count - 1) as nat);
        assert(elements.push(last)[count - 1] == elements[count - 1]);
        assert(elements.push(last)[0] == elements[0]);
        if count > 1 {
            assert(type_list_text(elements.push(last), count) == type_list_text(
                elements.push(last),
                (count - 1) as nat,
            ) + ", "@ + type_text(elements.push(last)[count - 1]));
            assert(type_list_text(elements, count) == type_list_text(elements, (count - 1) as nat)
                + ", "@ + type_text(elements[count - 1]));
        }
    }
}

/// A tuple is written in round brackets. One more element at the end is written behind
/// what stands there, with a comma and a space where it is not the first.
pub proof fn tuples_are_written_in_order(elements: Seq<TypeModel>, last: TypeModel)
    ensures
        type_text(TypeModel::Tuple(Seq::empty())) == "("@ + ")"@,
        type_text(TypeModel::Tuple(seq![last])) == "("@ + type_text(last) + ")"@,
        elements.len() > 0 ==> exists|inner: Seq<char>|
            #![trigger "("@ + inner + ")"@]
            type_text(TypeModel::Tuple(elements)) == "("@ + inner + ")"@ && type_text(
                TypeModel::Tuple(elements.push(last)),
            ) == "("@ + (inner + ", "@ + type_text(last)) + ")"@,
{
    let one = seq![last];
    assert(type_list_text(one, 1) == type_text(one[0]));
    let none = Seq::<TypeModel>::empty();
    assert(type_list_text(none, 0) =~= Seq::<char>::empty());
    assert("("@ + Seq::<char>::empty() + ")"@ =~= "("@ + ")"@);
    assert(type_text(TypeModel::Tuple(none)) == "("@ + type_list_text(none, none.len()) + ")"@);
    assert(type_text(TypeModel::Tuple(one)) == "("@ + type_list_text(one, one.len()) + ")"@);
    if elements.len() > 0 {
        let inner = type_list_text(elements, elements.len());
        let more = elements.push(last);
        tuple_prefix(elements, last, elements.len());
        assert(type_list_text(more, more.len()) == type_list_text(more, (more.len() - 1) as nat)
            + ", "@ + type_text(more[more.len() - 1]));
        assert(type_text(TypeModel::Tuple(elements)) == "("@ + inner + ")"@);
        assert(type_text(TypeModel::Tuple(more)) == "("@ + type_list_text(more, more.len())
            + ")"@);
        assert(type_text(TypeModel::Tuple(elements)) == "("@ + inner + ")"@ && type_text(
            TypeModel::Tuple(elements.push(last)),
        ) == "("@ + (inner + ", "@ + type_text(last)) + ")"@);
    }
}

/// A type is seen as what it is, kind by kind, with its parts.
pub proof fn types_are_seen_by_their_kind(
    n: u32,
    name: String,
    first: SpecType,
    second: SpecType,
    elements: Vec<SpecType>,
)
    ensures
        SpecType::Val.model() is Val,
        SpecType::Bool.model() is Bool,
        SpecType::Void.model() is Void,
        SpecType::Error.model() is Error,
        SpecType::U32.model() is U32,
        SpecType::I32.model() is I32,
        SpecType::U64.model() is U64,
        SpecType::I64.model() is I64,
        SpecType::Timepoint.model() is Timepoint,
        SpecType::Duration.model() is Duration,
        SpecType::U128.model() is U128,
        SpecType::I128.model() is I128,
        SpecType::U256.model() is U256,
        SpecType::I256.model() is I256,
        SpecType::Bytes.model() is Bytes,
        SpecType::String.model() is String,
        SpecType::Symbol.model() is Symbol,
        SpecType::Address.model() is Address,
        SpecType::BytesN(n).model() == TypeModel::BytesN(n),
        SpecType::Udt(name).model() == TypeModel::Udt(name@),
        SpecType::Option(Box::new(first)).model() == TypeModel::Option(Box::new(first.model())),
        SpecType::Vec(Box::new(first)).model() == TypeModel::Vec(Box::new(first.model())),
        SpecType::Result(Box::new(first), Box::new(second)).model() == TypeModel::Result(
            Box::new(first.model()),
            Box::new(second.model()),
        ),
        SpecType::Mapping(Box::new(first), Box::new(second)).model() == TypeModel::Mapping(
            Box::new(first.model()),
            Box::new(second.model()),
        ),
        SpecType::Tuple(elements).model() matches TypeModel::Tuple(models) && models.len()
            == elements@.len() && forall|i: int|
            0 <= i < models.len() ==> #[trigger] models[i] == elements@[i].model(),
{
    reveal_with_fuel(SpecType::model, 2);
}

/// Whether `entry` is what can be read at the place `from`, and ends at the place `to`.
pub open spec fn entry_stands(bytes: Seq<u8>, from: int, to: int, entry: EntryModel) -> bool {
    from < to <= bytes.len() && first_entry(bytes.skip(from)) == Some((entry, (to - from) as nat))
}

/// The entries of a section are those that can be read one after the other, each where
/// the one before it ends, up to the first place where none can be read.
pub proof fn entries_are_read_one_after_another(
    bytes: Seq<u8>,
    cuts: Seq<int>,
    entries: Seq<EntryModel>,
)
    requires
        cuts.len() == entries.len() + 1,
        cuts[0] == 0,
        forall|i: int|
            0 <= i < entries.len() ==> #[trigger] entry_stands(
                bytes,
                cuts[i],
                cuts[i + 1],
                entries[i],
            ),
        first_entry(bytes.skip(cuts.last())) is None,
    ensures
        entries_in(bytes) == entries,
{
    assert forall|i: int| 0 <= i < cuts.len() implies 0 <= #[trigger] cuts[i] <= bytes.len() by {
        cuts_are_in_range(bytes, cuts, entries, i);
    }
    entries_from_a_cut(bytes, cuts, entries, 0);
    assert(bytes.skip(0) =~= bytes);
    assert(entries.skip(0) =~= entries);
}

/// Each place where an entry ends lies in the section.
proof fn cuts_are_in_range(bytes: Seq<u8>, cuts: Seq<int>, entries: Seq<EntryModel>, at: int)
    requires
        cuts.len() == entries.len() + 1,
        cuts[0] == 0,
        forall|i: int|
            0 <= i < entries.len() ==> #[trigger] entry_stands(
                bytes,
                cuts[i],
                cuts[i + 1],
                entries[i],
            ),
        0 <= at < cuts.len(),
    ensures
        0 <= cuts[at] <= bytes.len(),
    decreases at,
{
    if at > 0 {
        cuts_are_in_range(bytes, cuts, entries, at - 1);
        assert(entry_stands(bytes, cuts[at - 1], cuts[(at - 1) + 1], entries[at - 1]));
    }
}

/// The same from a place where an entry begins.
proof fn entries_from_a_cut(bytes: Seq<u8>, cuts: Seq<int>, entries: Seq<EntryModel>, at: int)
    requires
        cuts.len() == entries.len() + 1,
        forall|i: int|
            0 <= i < entries.len() ==> #[trigger] entry_stands(
                bytes,
                cuts[i],
                cuts[i + 1],
                entries[i],
            ),
        forall|i: int| 0 <= i < cuts.len() ==> 0 <= #[trigger] cuts[i] <= bytes.len(),
        first_entry(bytes.skip(cuts.last())) is None,
        0 <= at <= entries.len(),
    ensures
        entries_in(bytes.skip(cuts[at])) == entries.skip(at),
    decreases entries.len() - at,
{
    let rest = bytes.skip(cuts[at]);
    if at == entries.len() {
        assert(entries.skip(at) =~= Seq::empty());
    } else {
        entries_from_a_cut(bytes, cuts, entries, at + 1);
        let size = cuts[at + 1] - cuts[at];
        assert(entry_stands(bytes, cuts[at], cuts[at + 1], entries[at]));
        assert(rest.skip(size) =~= bytes.skip(cuts[at + 1]));
        assert(entries.skip(at) =~= seq![entries[at]] + entries.skip(at + 1));
    }
}

/// A section is looked for by its name: the first custom section that has it is found,
/// whatever else the module holds, and nothing where none has it.
pub proof fn section_is_found_by_name(payloads: Seq<WasmPayload>, name: Seq<char>, at: int)
    ensures
        0 <= at < payloads.len() && payloads[at] is Custom && payloads[at]->name@ == name && (
        forall|i: int|
            #![trigger payloads[i]]
            0 <= i < at ==> !(payloads[i] is Custom && payloads[i]->name@ == name))
            ==> section_named(payload_models(payloads), name) == Some(payloads[at]->data@),
        (forall|i: int|
            #![trigger payloads[i]]
            0 <= i < payloads.len() ==> !(payloads[i] is Custom && payloads[i]->name@ == name))
            ==> section_named(payload_models(payloads), name) is None,
    decreases payloads.len(),
{
    let models = payload_models(payloads);
    if payloads.len() > 0 {
        let rest = payloads.drop_first();
        assert(models[0] == payloads[0]@);
        assert(models.drop_first() =~= payload_models(rest));
        section_is_found_by_name(rest, name, at - 1);
        assert(forall|i: int| 0 <= i < rest.len() ==> rest[i] == #[trigger] payloads[i + 1]);
        if at > 0 && at < payloads.len() {
            assert(rest[at - 1] == payloads[at]);
        }
        assert forall|i: int| #![trigger rest[i]] 0 <= i < rest.len() implies rest[i]
            == payloads[i + 1] by {}
    }
}

/// The error for a section that is not there says which one is meant.
pub proof fn missing_section_is_named(name: Seq<char>, error: GratError)
    requires
        error@ == section_missing(name),
    ensures
        error matches GratError::SpecError(text) && text@ == name + " custom section not found"@,
{
}

/// The specification of a module is that of its section `contractspecv0`; without that
/// section it is empty.
pub proof fn specification_is_of_its_section(wasm: Seq<u8>, at: int, contract: ContractSpec)
    requires
        contract@ == spec_of(spec_entries(wasm)),
    ensures
        (forall|i: int|
            #![trigger payloads_in(wasm)[i]]
            0 <= i < payloads_in(wasm).len() ==> !(payloads_in(wasm)[i] is Custom
                && payloads_in(wasm)[i]->name == "contractspecv0"@)) ==> contract.functions@.len()
            == 0 && contract.structs@.len() == 0 && contract.unions@.len() == 0
            && contract.enums@.len() == 0 && contract.errors@.len() == 0,
        0 <= at < payloads_in(wasm).len() && payloads_in(wasm)[at] is Custom && payloads_in(
            wasm,
        )[at]->name == "contractspecv0"@ && (forall|i: int|
            #![trigger payloads_in(wasm)[i]]
            0 <= i < at ==> !(payloads_in(wasm)[i] is Custom && payloads_in(wasm)[i]->name
                == "contractspecv0"@)) ==> contract@ == spec_of(
            entries_in(payloads_in(wasm)[at]->data),
        ),
{
    model_section_is_found(payloads_in(wasm), "contractspecv0"@, at);
    assert(contract@.functions.len() == contract.functions@.len());
    assert(contract@.structs.len() == contract.structs@.len());
    assert(contract@.unions.len() == contract.unions@.len());
    assert(contract@.enums.len() == contract.enums@.len());
    assert(contract@.errors.len() == contract.errors@.len());
}

/// The same of a section among the items that were parsed.
proof fn model_section_is_found(payloads: Seq<PayloadModel>, name: Seq<char>, at: int)
    ensures
        0 <= at < payloads.len() && payloads[at] is Custom && payloads[at]->name == name && (
        forall|i: int|
            #![trigger payloads[i]]
            0 <= i < at ==> !(payloads[i] is Custom && payloads[i]->name == name))
            ==> section_named(payloads, name) == Some(payloads[at]->data),
        (forall|i: int|
            #![trigger payloads[i]]
            0 <= i < payloads.len() ==> !(payloads[i] is Custom && payloads[i]->name == name))
            ==> section_named(payloads, name) is None,
    decreases payloads.len(),
{
    if payloads.len() > 0 {
        let rest = payloads.drop_first();
        model_section_is_found(rest, name, at - 1);
        assert forall|i: int| #![trigger rest[i]] 0 <= i < rest.len() implies rest[i]
            == payloads[i + 1] by {}
        if at > 0 && at < payloads.len() {
            assert(rest[at - 1] == payloads[at]);
        }
    }
}

} // verus!
