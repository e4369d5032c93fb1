//! Reading contract specification entries out of their XDR encoding.
//!
//! The encoding is decoded by the `stellar-xdr` crate. Its values are taken apart
//! here, one level at a time, and rebuilt as the plain types of this library.

use vstd::prelude::*;
use vstd::pervasive::unreached;
use vstd::slice::slice_subrange;
use std::io::Cursor;
use stellar_xdr::curr as stellar;
use stellar_xdr::curr::ReadXdr;

use crate::contract_spec::types::{
    entry_models, member_models, type_models, union_case_models, EntryModel, FunctionModel,
    MemberModel, SpecEntry, SpecEnum, SpecEnumCase, SpecFunction, SpecMember, SpecStruct,
    SpecType, SpecUnion, SpecUnionCase, StructModel, TypeModel, UnionCaseModel, UnionModel,
};

verus! {

/// The specification entry of the `stellar-xdr` crate.
#[verifier::external_type_specification]
#[verifier::external_body]
pub struct ExScSpecEntry(stellar_xdr::curr::ScSpecEntry);

/// The type definition of the `stellar-xdr` crate.
#[verifier::external_type_specification]
#[verifier::external_body]
pub struct ExScSpecTypeDef(stellar_xdr::curr::ScSpecTypeDef);

/// What a type definition of the `stellar-xdr` crate holds.
pub uninterp spec fn type_contents(definition: stellar_xdr::curr::ScSpecTypeDef) -> TypeModel;

/// What a specification entry of the `stellar-xdr` crate holds.
pub uninterp spec fn entry_contents(entry: stellar_xdr::curr::ScSpecEntry) -> EntryModel;

/// What `ScSpecEntry::read_xdr` reads at the start of `bytes`, without limits: the
/// entry and the number of bytes that it takes, or nothing where it fails.
pub uninterp spec fn first_entry(bytes: Seq<u8>) -> Option<(EntryModel, nat)>;

/// The entries that stand one after the other in `bytes`, up to the first place
/// where no entry can be read.
pub open spec fn entries_in(bytes: Seq<u8>) -> Seq<EntryModel>
    decreases bytes.len(),
{
    match first_entry(bytes) {
        Some((entry, size)) => if 0 < size <= bytes.len() {
            seq![entry] + entries_in(bytes.skip(size as int))
        } else {
            seq![entry]
        },
        None => Seq::empty(),
    }
}

/// What each of several type definitions holds.
pub open spec fn types_contents(
    definitions: Seq<stellar_xdr::curr::ScSpecTypeDef>,
) -> Seq<TypeModel> {
    Seq::new(definitions.len(), |i: int| type_contents(definitions[i]))
}

/// The outermost level of a type definition.
enum TypeNode {
    Leaf(i32),
    BytesN(u32),
    Option(stellar_xdr::curr::ScSpecTypeDef),
    Result(stellar_xdr::curr::ScSpecTypeDef, stellar_xdr::curr::ScSpecTypeDef),
    Vec(stellar_xdr::curr::ScSpecTypeDef),
    Mapping(stellar_xdr::curr::ScSpecTypeDef, stellar_xdr::curr::ScSpecTypeDef),
    Tuple(Vec<stellar_xdr::curr::ScSpecTypeDef>),
    Udt(String),
}

/// A parameter or a field whose type is not taken apart yet.
struct RawMember {
    doc: String,
    name: String,
    type_: stellar_xdr::curr::ScSpecTypeDef,
}

/// A function whose types are not taken apart yet.
struct RawFunction {
    doc: String,
    name: String,
    inputs: Vec<RawMember>,
    outputs: Vec<stellar_xdr::curr::ScSpecTypeDef>,
}

/// A struct whose types are not taken apart yet.
struct RawStruct {
    doc: String,
    lib: String,
    name: String,
    fields: Vec<RawMember>,
}

/// A case of a union whose types are not taken apart yet.
struct RawUnionCase {
    doc: String,
    name: String,
    types: Option<Vec<stellar_xdr::curr::ScSpecTypeDef>>,
}

/// A union whose types are not taken apart yet.
struct RawUnion {
    doc: String,
    lib: String,
    name: String,
    cases: Vec<RawUnionCase>,
}

impl RawMember {
    spec fn model(self) -> MemberModel {
        MemberModel { doc: self.doc@, name: self.name@, type_: type_contents(self.type_) }
    }
}

/// The models of several parameters or fields.
spec fn raw_member_models(members: Seq<RawMember>) -> Seq<MemberModel> {
    Seq::new(members.len(), |i: int| members[i].model())
}

impl RawFunction {
    spec fn model(self) -> FunctionModel {
        FunctionModel {
            doc: self.doc@,
            name: self.name@,
            inputs: raw_member_models(self.inputs@),
            outputs: types_contents(self.outputs@),
        }
    }
}

impl RawStruct {
    spec fn model(self) -> StructModel {
        StructModel {
            doc: self.doc@,
            lib: self.lib@,
            name: self.name@,
            fields: raw_member_models(self.fields@),
        }
    }
}

impl RawUnionCase {
    spec fn model(self) -> UnionCaseModel {
        match self.types {
            None => UnionCaseModel::Void { doc: self.doc@, name: self.name@ },
            Some(types) => UnionCaseModel::Tuple {
                doc: self.doc@,
                name: self.name@,
                type_: types_contents(types@),
            },
        }
    }
}

impl RawUnion {
    spec fn model(self) -> UnionModel {
        UnionModel {
            doc: self.doc@,
            lib: self.lib@,
            name: self.name@,
            cases: Seq::new(self.cases@.len(), |i: int| self.cases@[i].model()),
        }
    }
}

/// The type without parts whose XDR code is `code`.
spec fn leaf_model(code: int) -> Option<TypeModel> {
    if code == 0 {
        Some(TypeModel::Val)
    } else if code == 1 {
        Some(TypeModel::Bool)
    } else if code == 2 {
        Some(TypeModel::Void)
    } else if code == 3 {
        Some(TypeModel::Error)
    } else if code == 4 {
        Some(TypeModel::U32)
    } else if code == 5 {
        Some(TypeModel::I32)
    } else if code == 6 {
        Some(TypeModel::U64)
    } else if code == 7 {
        Some(TypeModel::I64)
    } else if code == 8 {
        Some(TypeModel::Timepoint)
    } else if code == 9 {
        Some(TypeModel::Duration)
    } else if code == 10 {
        Some(TypeModel::U128)
    } else if code == 11 {
        Some(TypeModel::I128)
    } else if code == 12 {
        Some(TypeModel::U256)
    } else if code == 13 {
        Some(TypeModel::I256)
    } else if code == 14 {
        Some(TypeModel::Bytes)
    } else if code == 16 {
        Some(TypeModel::String)
    } else if code == 17 {
        Some(TypeModel::Symbol)
    } else if code == 19 {
        Some(TypeModel::Address)
    } else {
        None
    }
}

impl TypeNode {
    /// The model of the definition that the node was taken from.
    spec fn model(self) -> Option<TypeModel> {
        match self {
            TypeNode::Leaf(code) => leaf_model(code as int),
            TypeNode::BytesN(n) => Some(TypeModel::BytesN(n)),
            TypeNode::Option(value) => Some(TypeModel::Option(Box::new(type_contents(value)))),
            TypeNode::Result(ok, error) => Some(
                TypeModel::Result(Box::new(type_contents(ok)), Box::new(type_contents(error))),
            ),
            TypeNode::Vec(element) => Some(TypeModel::Vec(Box::new(type_contents(element)))),
            TypeNode::Mapping(key, value) => Some(
                TypeModel::Mapping(Box::new(type_contents(key)), Box::new(type_contents(value))),
            ),
            TypeNode::Tuple(elements) => Some(TypeModel::Tuple(types_contents(elements@))),
            TypeNode::Udt(name) => Some(TypeModel::Udt(name@)),
        }
    }
}

/// Takes off the outermost level of a type definition.
///
/// The variants of `stellar_xdr::curr::ScSpecTypeDef` are told apart and their
/// fields moved; one without fields gives the number that its
/// `ScSpecTypeDef::discriminant` stands for. Claimed: the level and what the parts
/// hold make up what the definition holds.
#[verifier::external_body]
fn type_node(definition: stellar_xdr::curr::ScSpecTypeDef) -> (node: TypeNode)
    ensures
        node.model() == Some(type_contents(definition)),
{
    match definition {
        stellar::ScSpecTypeDef::BytesN(bytes) => TypeNode::BytesN(bytes.n),
        stellar::ScSpecTypeDef::Option(option) => TypeNode::Option(*option.value_type),
        stellar::ScSpecTypeDef::Result(result) => {
            TypeNode::Result(*result.ok_type, *result.error_type)
        }
        stellar::ScSpecTypeDef::Vec(vec) => TypeNode::Vec(*vec.element_type),
        stellar::ScSpecTypeDef::Map(map) => TypeNode::Mapping(*map.key_type, *map.value_type),
        stellar::ScSpecTypeDef::Tuple(tuple) => TypeNode::Tuple(tuple.value_types.into()),
        stellar::ScSpecTypeDef::Udt(udt) => TypeNode::Udt(udt.name.to_string()),
        leaf => TypeNode::Leaf(leaf.discriminant() as i32),
    }
}

/// Reads one entry at the start of `bytes`.
///
/// Calls `stellar_xdr::curr::ScSpecEntry::read_xdr` on a cursor over `bytes`, with
/// `Limits::none()`. Claimed: what it reads, and how far, depends on `bytes` alone;
/// it takes at least the four bytes of the entry's kind and never more than there
/// are.
#[verifier::external_body]
fn read_entry(bytes: &[u8]) -> (read: Option<(stellar_xdr::curr::ScSpecEntry, usize)>)
    ensures
        match read {
            Some((entry, size)) => first_entry(bytes@) == Some(
                (entry_contents(entry), size as nat),
            ) && 4 <= size <= bytes@.len(),
            None => first_entry(bytes@) is None,
        },
{
    let mut reader = stellar::Limited::new(Cursor::new(bytes), stellar::Limits::none());
    match stellar::ScSpecEntry::read_xdr(&mut reader) {
        Ok(entry) => Some((entry, reader.inner.position() as usize)),
        Err(_) => None,
    }
}

/// The parts of a function entry.
///
/// Tells the variant `stellar_xdr::curr::ScSpecEntry::FunctionV0` from the others
/// and copies its fields, texts as `StringM` displays them. Claimed: the parts are
/// there exactly when the entry holds a function, and are what it holds.
#[verifier::external_body]
fn function_parts(entry: &stellar_xdr::curr::ScSpecEntry) -> (parts: Option<RawFunction>)
    ensures
        match entry_contents(*entry) {
            EntryModel::Function(model) => parts is Some && parts->0.model() == model,
            _ => parts is None,
        },
{
    match entry {
        stellar::ScSpecEntry::FunctionV0(f) => Some(RawFunction {
            doc: f.doc.to_string(),
            name: f.name.to_string(),
            inputs: f.inputs.iter().map(|i| RawMember {
                doc: i.doc.to_string(),
                name: i.name.to_string(),
                type_: i.type_.clone(),
            }).collect(),
            outputs: f.outputs.to_vec(),
        }),
        _ => None,
    }
}

/// The parts of a struct entry.
///
/// Tells the variant `stellar_xdr::curr::ScSpecEntry::UdtStructV0` from the others
/// and copies its fields, texts as `StringM` displays them. Claimed: the parts are
/// there exactly when the entry holds a struct, and are what it holds.
#[verifier::external_body]
fn struct_parts(entry: &stellar_xdr::curr::ScSpecEntry) -> (parts: Option<RawStruct>)
    ensures
        match entry_contents(*entry) {
            EntryModel::Struct(model) => parts is Some && parts->0.model() == model,
            _ => parts is None,
        },
{
    match entry {
        stellar::ScSpecEntry::UdtStructV0(s) => Some(RawStruct {
            doc: s.doc.to_string(),
            lib: s.lib.to_string(),
            name: s.name.to_string(),
            fields: s.fields.iter().map(|f| RawMember {
                doc: f.doc.to_string(),
                name: f.name.to_string(),
                type_: f.type_.clone(),
            }).collect(),
        }),
        _ => None,
    }
}

/// The parts of a union entry.
///
/// Tells the variant `stellar_xdr::curr::ScSpecEntry::UdtUnionV0` from the others
/// and copies its fields, texts as `StringM` displays them; a case of
/// `ScSpecUdtUnionCaseV0::VoidV0` has no list of types. Claimed: the parts are there
/// exactly when the entry holds a union, and are what it holds.
#[verifier::external_body]
fn union_parts(entry: &stellar_xdr::curr::ScSpecEntry) -> (parts: Option<RawUnion>)
    ensures
        match entry_contents(*entry) {
            EntryModel::Union(model) => parts is Some && parts->0.model() == model,
            _ => parts is None,
        },
{
    let stellar::ScSpecEntry::UdtUnionV0(u) = entry else { return None };
    let cases = u.cases.iter().map(|case| match case {
        stellar::ScSpecUdtUnionCaseV0::VoidV0(c) => {
            RawUnionCase { doc: c.doc.to_string(), name: c.name.to_string(), types: None }
        }
        stellar::ScSpecUdtUnionCaseV0::TupleV0(c) => RawUnionCase {
            doc: c.doc.to_string(),
            name: c.name.to_string(),
            types: Some(c.type_.to_vec()),
        },
    }).collect();
    let (doc, lib, name) = (u.doc.to_string(), u.lib.to_string(), u.name.to_string());
    Some(RawUnion { doc, lib, name, cases })
}

/// The definition in an enum entry.
///
/// Tells the variant `stellar_xdr::curr::ScSpecEntry::UdtEnumV0` from the others and
/// copies its fields, texts as `StringM` displays them. Claimed: the definition is
/// there exactly when the entry holds an enum, and is what it holds.
#[verifier::external_body]
fn enum_parts(entry: &stellar_xdr::curr::ScSpecEntry) -> (definition: Option<SpecEnum>)
    ensures
        match entry_contents(*entry) {
            EntryModel::Enum(model) => definition is Some && definition->0@ == model,
            _ => definition is None,
        },
{
    match entry {
        stellar::ScSpecEntry::UdtEnumV0(e) => Some(SpecEnum {
            doc: e.doc.to_string(),
            lib: e.lib.to_string(),
            name: e.name.to_string(),
            cases: e.cases.iter().map(|c| SpecEnumCase {
                doc: c.doc.to_string(),
                name: c.name.to_string(),
                value: c.value,
            }).collect(),
        }),
        _ => None,
    }
}

/// The definition in an error enum entry.
///
/// Tells the variant `stellar_xdr::curr::ScSpecEntry::UdtErrorEnumV0` from the others
/// and copies its fields, texts as `StringM` displays them. Claimed: the definition
/// is there exactly when the entry holds an error enum, and is what it holds.
#[verifier::external_body]
fn error_enum_parts(entry: &stellar_xdr::curr::ScSpecEntry) -> (definition: Option<
    SpecEnum,
>)
    ensures
        match entry_contents(*entry) {
            EntryModel::ErrorEnum(model) => definition is Some && definition->0@ == model,
            _ => definition is None,
        },
{
    match entry {
        stellar::ScSpecEntry::UdtErrorEnumV0(e) => Some(SpecEnum {
            doc: e.doc.to_string(),
            lib: e.lib.to_string(),
            name: e.name.to_string(),
            cases: e.cases.iter().map(|c| SpecEnumCase {
                doc: c.doc.to_string(),
                name: c.name.to_string(),
                value: c.value,
            }).collect(),
        }),
        _ => None,
    }
}

/// The type without parts whose XDR code is `code`.
fn leaf_type(code: i32) -> (leaf: SpecType)
    requires
        leaf_model(code as int) is Some,
    ensures
        leaf_model(code as int) == Some(leaf.model()),
{
    match code {
        0 => SpecType::Val,
        1 => SpecType::Bool,
        2 => SpecType::Void,
        3 => SpecType::Error,
        4 => SpecType::U32,
        5 => SpecType::I32,
        6 => SpecType::U64,
        7 => SpecType::I64,
        8 => SpecType::Timepoint,
        9 => SpecType::Duration,
        10 => SpecType::U128,
        11 => SpecType::I128,
        12 => SpecType::U256,
        13 => SpecType::I256,
        14 => SpecType::Bytes,
        16 => SpecType::String,
        17 => SpecType::Symbol,
        _ => SpecType::Address,
    }
}

/// A type definition as the library's own type.
fn own_type(definition: stellar_xdr::curr::ScSpecTypeDef) -> (own: SpecType)
    ensures
        own.model() == type_contents(definition),
    decreases type_contents(definition),
{
    let ghost whole = type_contents(definition);
    match type_node(definition) {
        TypeNode::Leaf(code) => leaf_type(code),
        TypeNode::BytesN(n) => SpecType::BytesN(n),
        TypeNode::Option(value) => {
            assert(decreases_to!(whole => whole->Option_0));
            SpecType::Option(Box::new(own_type(value)))
        },
        TypeNode::Result(ok, error) => {
            assert(decreases_to!(whole => whole->Result_0));
            assert(decreases_to!(whole => whole->Result_1));
            let ok_type = own_type(ok);
            SpecType::Result(Box::new(ok_type), Box::new(own_type(error)))
        },
        TypeNode::Vec(element) => {
            assert(decreases_to!(whole => whole->Vec_0));
            SpecType::Vec(Box::new(own_type(element)))
        },
        TypeNode::Mapping(key, value) => {
            assert(decreases_to!(whole => whole->Mapping_0));
            assert(decreases_to!(whole => whole->Mapping_1));
            let key_type = own_type(key);
            SpecType::Mapping(Box::new(key_type), Box::new(own_type(value)))
        },
        TypeNode::Tuple(elements) => {
            assert(decreases_to!(whole => whole->Tuple_0));
            let own = own_types(elements);
            let tuple = SpecType::Tuple(own);
            assert(tuple.model()->Tuple_0 =~= type_models(own@));
            tuple
        },
        TypeNode::Udt(name) => SpecType::Udt(name),
    }
}

/// Several type definitions as the library's own types.
fn own_types(definitions: Vec<stellar_xdr::curr::ScSpecTypeDef>) -> (own: Vec<SpecType>)
    ensures
        type_models(own@) == types_contents(definitions@),
    decreases types_contents(definitions@),
{
    let mut own: Vec<SpecType> = Vec::new();
    for definition in elements: definitions
        invariant
            own@.len() == elements.index(),
            elements.seq() == definitions@,
            forall|i: int|
                0 <= i < own@.len() ==> (#[trigger] own@[i]).model() == type_contents(
                    definitions@[i],
                ),
    {
        assert(decreases_to!(types_contents(definitions@) => types_contents(definitions@)[own@.len() as int]));
        own.push(own_type(definition));
    }
    assert(type_models(own@) =~= types_contents(definitions@));
    own
}

/// Several parameters or fields as the library's own type.
fn own_members(members: Vec<RawMember>) -> (own: Vec<SpecMember>)
    ensures
        member_models(own@) == raw_member_models(members@),
{
    let mut own: Vec<SpecMember> = Vec::new();
    for member in elements: members
        invariant
            own@.len() == elements.index(),
            elements.seq() == members@,
            forall|i: int| 0 <= i < own@.len() ==> (#[trigger] own@[i])@ == members@[i].model(),
    {
        own.push(SpecMember { doc: member.doc, name: member.name, type_: own_type(member.type_) });
    }
    assert(member_models(own@) =~= raw_member_models(members@));
    own
}

/// Several cases of a union as the library's own type.
fn own_union_cases(cases: Vec<RawUnionCase>) -> (own: Vec<SpecUnionCase>)
    ensures
        union_case_models(own@) == Seq::new(cases@.len(), |i: int| cases@[i].model()),
{
    let mut own: Vec<SpecUnionCase> = Vec::new();
    for case in elements: cases
        invariant
            own@.len() == elements.index(),
            elements.seq() == cases@,
            forall|i: int| 0 <= i < own@.len() ==> (#[trigger] own@[i])@ == cases@[i].model(),
    {
        own.push(
            match case.types {
                None => SpecUnionCase::Void { doc: case.doc, name: case.name },
                Some(types) => SpecUnionCase::Tuple {
                    doc: case.doc,
                    name: case.name,
                    type_: own_types(types),
                },
            },
        );
    }
    assert(union_case_models(own@) =~= Seq::new(cases@.len(), |i: int| cases@[i].model()));
    own
}

/// An entry as the library's own type.
fn own_entry(entry: stellar_xdr::curr::ScSpecEntry) -> (own: SpecEntry)
    ensures
        own@ == entry_contents(entry),
{
    if let Some(parts) = function_parts(&entry) {
        return SpecEntry::Function(
            SpecFunction {
                doc: parts.doc,
                name: parts.name,
                inputs: own_members(parts.inputs),
                outputs: own_types(parts.outputs),
            },
        );
    }
    if let Some(parts) = struct_parts(&entry) {
        return SpecEntry::Struct(
            SpecStruct {
                doc: parts.doc,
                lib: parts.lib,
                name: parts.name,
                fields: own_members(parts.fields),
            },
        );
    }
    if let Some(parts) = union_parts(&entry) {
        return SpecEntry::Union(
            SpecUnion {
                doc: parts.doc,
                lib: parts.lib,
                name: parts.name,
                cases: own_union_cases(parts.cases),
            },
        );
    }
    if let Some(definition) = enum_parts(&entry) {
        return SpecEntry::Enum(definition);
    }
    match error_enum_parts(&entry) {
        Some(definition) => SpecEntry::ErrorEnum(definition),
        None => unreached(),
    }
}

/// The entries that stand one after the other in `bytes`, up to the first place where
/// no entry can be read.
pub fn read_entries(bytes: &[u8]) -> (entries: Vec<SpecEntry>)
    ensures
        entry_models(entries@) == entries_in(bytes@),
{
    let mut entries: Vec<SpecEntry> = Vec::new();
    let mut at: usize = 0;
    assert(bytes@.skip(0) =~= bytes@);
    assert(entry_models(entries@) + entries_in(bytes@) =~= entries_in(bytes@));
    loop
        invariant
            at <= bytes@.len(),
            entry_models(entries@) + entries_in(bytes@.skip(at as int)) == entries_in(bytes@),
        ensures
            entry_models(entries@) == entries_in(bytes@),
        decreases bytes@.len() - at,
    {
        let rest = slice_subrange(bytes, at, bytes.len());
        assert(rest@ =~= bytes@.skip(at as int));
        match read_entry(rest) {
            Some((entry, size)) => {
                let ghost before = entries@;
                entries.push(own_entry(entry));
                proof {
                    assert(rest@.skip(size as int) =~= bytes@.skip(at + size));
                    assert(entry_models(entries@) =~= entry_models(before).push(
                        entry_contents(entry),
                    ));
                    assert(entry_models(entries@) + entries_in(bytes@.skip(at + size))
                        =~= entry_models(before) + (seq![entry_contents(entry)] + entries_in(
                        bytes@.skip(at + size),
                    )));
                }
                at = at + size;
            },
            None => {
                assert(entry_models(entries@) + entries_in(rest@) =~= entry_models(entries@));
                break;
            },
        }
    }
    entries
}

/// The parts of an entry are seen under their own names, one for one.
proof fn parts_are_seen_under_their_names(
    member: RawMember,
    function: RawFunction,
    structure: RawStruct,
    case: RawUnionCase,
    union_: RawUnion,
)
    ensures
        member.model().name == member.name@,
        member.model().doc == member.doc@,
        member.model().type_ == type_contents(member.type_),
        function.model().name == function.name@,
        function.model().doc == function.doc@,
        function.model().inputs.len() == function.inputs@.len(),
        forall|i: int|
            0 <= i < function.inputs@.len() ==> #[trigger] function.model().inputs[i]
                == function.inputs@[i].model(),
        function.model().outputs.len() == function.outputs@.len(),
        forall|i: int|
            0 <= i < function.outputs@.len() ==> #[trigger] function.model().outputs[i]
                == type_contents(function.outputs@[i]),
        structure.model().name == structure.name@,
        structure.model().lib == structure.lib@,
        structure.model().doc == structure.doc@,
        structure.model().fields.len() == structure.fields@.len(),
        forall|i: int|
            0 <= i < structure.fields@.len() ==> #[trigger] structure.model().fields[i]
                == structure.fields@[i].model(),
        match case.types {
            None => case.model() == (UnionCaseModel::Void { doc: case.doc@, name: case.name@ }),
            Some(types) => case.model() matches UnionCaseModel::Tuple { doc, name, type_ } && doc
                == case.doc@ && name == case.name@ && type_.len() == types@.len() && forall|i: int|
                0 <= i < types@.len() ==> #[trigger] type_[i] == type_contents(types@[i]),
        },
        union_.model().name == union_.name@,
        union_.model().lib == union_.lib@,
        union_.model().doc == union_.doc@,
        union_.model().cases.len() == union_.cases@.len(),
        forall|i: int|
            0 <= i < union_.cases@.len() ==> #[trigger] union_.model().cases[i]
                == union_.cases@[i].model(),
{
}

/// A type without parts is told by its code, and no two have the same.
proof fn codes_tell_types(code: int)
    ensures
        leaf_model(code) is Some <==> 0 <= code <= 14 || code == 16 || code == 17 || code == 19,
        leaf_model(code) == Some(TypeModel::Val) <==> code == 0,
        leaf_model(code) == Some(TypeModel::Bool) <==> code == 1,
        leaf_model(code) == Some(TypeModel::Void) <==> code == 2,
        leaf_model(code) == Some(TypeModel::Error) <==> code == 3,
        leaf_model(code) == Some(TypeModel::U32) <==> code == 4,
        leaf_model(code) == Some(TypeModel::I32) <==> code == 5,
        leaf_model(code) == Some(TypeModel::U64) <==> code == 6,
        leaf_model(code) == Some(TypeModel::I64) <==> code == 7,
        leaf_model(code) == Some(TypeModel::Timepoint) <==> code == 8,
        leaf_model(code) == Some(TypeModel::Duration) <==> code == 9,
        leaf_model(code) == Some(TypeModel::U128) <==> code == 10,
        leaf_model(code) == Some(TypeModel::I128) <==> code == 11,
        leaf_model(code) == Some(TypeModel::U256) <==> code == 12,
        leaf_model(code) == Some(TypeModel::I256) <==> code == 13,
        leaf_model(code) == Some(TypeModel::Bytes) <==> code == 14,
        leaf_model(code) == Some(TypeModel::String) <==> code == 16,
        leaf_model(code) == Some(TypeModel::Symbol) <==> code == 17,
        leaf_model(code) == Some(TypeModel::Address) <==> code == 19,
{
}

/// A type with parts is seen with its parts in order.
proof fn nodes_keep_their_parts(
    first: stellar_xdr::curr::ScSpecTypeDef,
    second: stellar_xdr::curr::ScSpecTypeDef,
    elements: Vec<stellar_xdr::curr::ScSpecTypeDef>,
    n: u32,
    name: String,
)
    ensures
        TypeNode::BytesN(n).model() == Some(TypeModel::BytesN(n)),
        TypeNode::Udt(name).model() == Some(TypeModel::Udt(name@)),
        TypeNode::Option(first).model() == Some(TypeModel::Option(Box::new(type_contents(first)))),
        TypeNode::Vec(first).model() == Some(TypeModel::Vec(Box::new(type_contents(first)))),
        TypeNode::Result(first, second).model() == Some(
            TypeModel::Result(Box::new(type_contents(first)), Box::new(type_contents(second))),
        ),
        TypeNode::Mapping(first, second).model() == Some(
            TypeModel::Mapping(Box::new(type_contents(first)), Box::new(type_contents(second))),
        ),
        TypeNode::Tuple(elements).model() matches Some(TypeModel::Tuple(own)) && own.len()
            == elements@.len() && forall|i: int|
            0 <= i < own.len() ==> #[trigger] own[i] == type_contents(elements@[i]),
{
}

} // verus!
