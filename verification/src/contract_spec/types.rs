//! The entries of a contract specification and the models of them.

use vstd::prelude::*;

verus! {

/// The type of a value in a contract's interface.
#[derive(Debug, PartialEq, Eq)]
pub enum SpecType {
    Val,
    Bool,
    Void,
    Error,
    U32,
    I32,
    U64,
    I64,
    Timepoint,
    Duration,
    U128,
    I128,
    U256,
    I256,
    Bytes,
    String,
    Symbol,
    Address,
    Option(Box<SpecType>),
    Result(Box<SpecType>, Box<SpecType>),
    Vec(Box<SpecType>),
    Mapping(Box<SpecType>, Box<SpecType>),
    Tuple(Vec<SpecType>),
    BytesN(u32),
    Udt(String),
}

/// The model of [`SpecType`].
pub enum TypeModel {
    Val,
    Bool,
    Void,
    Error,
    U32,
    I32,
    U64,
    I64,
    Timepoint,
    Duration,
    U128,
    I128,
    U256,
    I256,
    Bytes,
    String,
    Symbol,
    Address,
    Option(Box<TypeModel>),
    Result(Box<TypeModel>, Box<TypeModel>),
    Vec(Box<TypeModel>),
    Mapping(Box<TypeModel>, Box<TypeModel>),
    Tuple(Seq<TypeModel>),
    BytesN(u32),
    Udt(Seq<char>),
}

impl SpecType {
    /// The model of the type.
    pub open spec fn model(self) -> TypeModel
        decreases self,
    {
        match self {
            SpecType::Val => TypeModel::Val,
            SpecType::Bool => TypeModel::Bool,
            SpecType::Void => TypeModel::Void,
            SpecType::Error => TypeModel::Error,
            SpecType::U32 => TypeModel::U32,
            SpecType::I32 => TypeModel::I32,
            SpecType::U64 => TypeModel::U64,
            SpecType::I64 => TypeModel::I64,
            SpecType::Timepoint => TypeModel::Timepoint,
            SpecType::Duration => TypeModel::Duration,
            SpecType::U128 => TypeModel::U128,
            SpecType::I128 => TypeModel::I128,
            SpecType::U256 => TypeModel::U256,
            SpecType::I256 => TypeModel::I256,
            SpecType::Bytes => TypeModel::Bytes,
            SpecType::String => TypeModel::String,
            SpecType::Symbol => TypeModel::Symbol,
            SpecType::Address => TypeModel::Address,
            SpecType::Option(value) => TypeModel::Option(Box::new(value.model())),
            SpecType::Result(ok, error) => TypeModel::Result(
                Box::new(ok.model()),
                Box::new(error.model()),
            ),
            SpecType::Vec(element) => TypeModel::Vec(Box::new(element.model())),
            SpecType::Mapping(key, value) => TypeModel::Mapping(
                Box::new(key.model()),
                Box::new(value.model()),
            ),
            SpecType::Tuple(elements) => TypeModel::Tuple(
                Seq::new(
                    elements@.len(),
                    |i: int|
                        if 0 <= i < elements@.len() {
                            elements@[i].model()
                        } else {
                            TypeModel::Void
                        },
                ),
            ),
            SpecType::BytesN(n) => TypeModel::BytesN(n),
            SpecType::Udt(name) => TypeModel::Udt(name@),
        }
    }
}

impl Clone for SpecType {
    fn clone(&self) -> (copy: SpecType)
        ensures
            copy.model() == self.model(),
        decreases *self,
    {
        match self {
            SpecType::Val => SpecType::Val,
            SpecType::Bool => SpecType::Bool,
            SpecType::Void => SpecType::Void,
            SpecType::Error => SpecType::Error,
            SpecType::U32 => SpecType::U32,
            SpecType::I32 => SpecType::I32,
            SpecType::U64 => SpecType::U64,
            SpecType::I64 => SpecType::I64,
            SpecType::Timepoint => SpecType::Timepoint,
            SpecType::Duration => SpecType::Duration,
            SpecType::U128 => SpecType::U128,
            SpecType::I128 => SpecType::I128,
            SpecType::U256 => SpecType::U256,
            SpecType::I256 => SpecType::I256,
            SpecType::Bytes => SpecType::Bytes,
            SpecType::String => SpecType::String,
            SpecType::Symbol => SpecType::Symbol,
            SpecType::Address => SpecType::Address,
            SpecType::Option(value) => SpecType::Option(Box::new((&**value).clone())),
            SpecType::Result(ok, error) => SpecType::Result(
                Box::new((&**ok).clone()),
                Box::new((&**error).clone()),
            ),
            SpecType::Vec(element) => SpecType::Vec(Box::new((&**element).clone())),
            SpecType::Mapping(key, value) => SpecType::Mapping(
                Box::new((&**key).clone()),
                Box::new((&**value).clone()),
            ),
            SpecType::Tuple(elements) => {
                let mut copies: Vec<SpecType> = Vec::new();
                let mut i: usize = 0;
                while i < elements.len()
                    invariant
                        i <= elements@.len(),
                        *self == SpecType::Tuple(*elements),
                        copies@.len() == i,
                        forall|j: int|
                            0 <= j < i ==> (#[trigger] copies@[j]).model() == elements@[j].model(),
                    decreases elements@.len() - i,
                {
                    assert(decreases_to!(*self => self->Tuple_0));
                    assert(decreases_to!(self->Tuple_0 => elements@));
                    assert(decreases_to!(elements@ => elements@[i as int]));
                    copies.push(elements[i].clone());
                    i += 1;
                }
                let copy = SpecType::Tuple(copies);
                assert(copy.model()->Tuple_0 =~= self.model()->Tuple_0);
                copy
            },
            SpecType::BytesN(n) => SpecType::BytesN(*n),
            SpecType::Udt(name) => SpecType::Udt(name.clone()),
        }
    }
}

/// The models of a sequence of types.
pub open spec fn type_models(types: Seq<SpecType>) -> Seq<TypeModel> {
    Seq::new(types.len(), |i: int| types[i].model())
}

/// A parameter of a contract function, or a field of a struct that a contract defines.
#[derive(Debug, Clone, PartialEq, Eq)]
pub struct SpecMember {
    pub doc: String,
    pub name: String,
    pub type_: SpecType,
}

/// A contract function.
#[derive(Debug, Clone, PartialEq, Eq)]
pub struct SpecFunction {
    pub doc: String,
    pub name: String,
    pub inputs: Vec<SpecMember>,
    pub outputs: Vec<SpecType>,
}

/// A struct that a contract defines.
#[derive(Debug, Clone, PartialEq, Eq)]
pub struct SpecStruct {
    pub doc: String,
    pub lib: String,
    pub name: String,
    pub fields: Vec<SpecMember>,
}

/// One case of a union that a contract defines.
#[derive(Debug, Clone, PartialEq, Eq)]
pub enum SpecUnionCase {
    Void { doc: String, name: String },
    Tuple { doc: String, name: String, type_: Vec<SpecType> },
}

/// A union that a contract defines.
#[derive(Debug, Clone, PartialEq, Eq)]
pub struct SpecUnion {
    pub doc: String,
    pub lib: String,
    pub name: String,
    pub cases: Vec<SpecUnionCase>,
}

/// One case of an enum, or of an error enum, that a contract defines.
#[derive(Debug, Clone, PartialEq, Eq)]
pub struct SpecEnumCase {
    pub doc: String,
    pub name: String,
    pub value: u32,
}

/// An enum, or an error enum, that a contract defines.
#[derive(Debug, Clone, PartialEq, Eq)]
pub struct SpecEnum {
    pub doc: String,
    pub lib: String,
    pub name: String,
    pub cases: Vec<SpecEnumCase>,
}

/// One entry of a contract specification.
#[derive(Debug, Clone, PartialEq, Eq)]
pub enum SpecEntry {
    Function(SpecFunction),
    Struct(SpecStruct),
    Union(SpecUnion),
    Enum(SpecEnum),
    ErrorEnum(SpecEnum),
}

/// The model of [`SpecMember`].
pub struct MemberModel {
    pub doc: Seq<char>,
    pub name: Seq<char>,
    pub type_: TypeModel,
}

/// The model of [`SpecFunction`].
pub struct FunctionModel {
    pub doc: Seq<char>,
    pub name: Seq<char>,
    pub inputs: Seq<MemberModel>,
    pub outputs: Seq<TypeModel>,
}

/// The model of [`SpecStruct`].
pub struct StructModel {
    pub doc: Seq<char>,
    pub lib: Seq<char>,
    pub name: Seq<char>,
    pub fields: Seq<MemberModel>,
}

/// The model of [`SpecUnionCase`].
pub enum UnionCaseModel {
    Void { doc: Seq<char>, name: Seq<char> },
    Tuple { doc: Seq<char>, name: Seq<char>, type_: Seq<TypeModel> },
}

/// The model of [`SpecUnion`].
pub struct UnionModel {
    pub doc: Seq<char>,
    pub lib: Seq<char>,
    pub name: Seq<char>,
    pub cases: Seq<UnionCaseModel>,
}

/// The model of [`SpecEnumCase`].
pub struct EnumCaseModel {
    pub doc: Seq<char>,
    pub name: Seq<char>,
    pub value: u32,
}

/// The model of [`SpecEnum`].
pub struct EnumModel {
    pub doc: Seq<char>,
    pub lib: Seq<char>,
    pub name: Seq<char>,
    pub cases: Seq<EnumCaseModel>,
}

/// The model of [`SpecEntry`].
pub enum EntryModel {
    Function(FunctionModel),
    Struct(StructModel),
    Union(UnionModel),
    Enum(EnumModel),
    ErrorEnum(EnumModel),
}

impl View for SpecMember {
    type V = MemberModel;

    open spec fn view(&self) -> MemberModel {
        MemberModel { doc: self.doc@, name: self.name@, type_: self.type_.model() }
    }
}

impl View for SpecFunction {
    type V = FunctionModel;

    open spec fn view(&self) -> FunctionModel {
        FunctionModel {
            doc: self.doc@,
            name: self.name@,
            inputs: member_models(self.inputs@),
            outputs: type_models(self.outputs@),
        }
    }
}

impl View for SpecStruct {
    type V = StructModel;

    open spec fn view(&self) -> StructModel {
        StructModel {
            doc: self.doc@,
            lib: self.lib@,
            name: self.name@,
            fields: member_models(self.fields@),
        }
    }
}

impl View for SpecUnionCase {
    type V = UnionCaseModel;

    open spec fn view(&self) -> UnionCaseModel {
        match *self {
            SpecUnionCase::Void { doc, name } => UnionCaseModel::Void {
                doc: doc@,
                name: name@,
            },
            SpecUnionCase::Tuple { doc, name, type_ } => UnionCaseModel::Tuple {
                doc: doc@,
                name: name@,
                type_: type_models(type_@),
            },
        }
    }
}

impl View for SpecUnion {
    type V = UnionModel;

    open spec fn view(&self) -> UnionModel {
        UnionModel {
            doc: self.doc@,
            lib: self.lib@,
            name: self.name@,
            cases: union_case_models(self.cases@),
        }
    }
}

impl View for SpecEnumCase {
    type V = EnumCaseModel;

    open spec fn view(&self) -> EnumCaseModel {
        EnumCaseModel { doc: self.doc@, name: self.name@, value: self.value }
    }
}

impl View for SpecEnum {
    type V = EnumModel;

    open spec fn view(&self) -> EnumModel {
        EnumModel {
            doc: self.doc@,
            lib: self.lib@,
            name: self.name@,
            cases: enum_case_models(self.cases@),
        }
    }
}

impl View for SpecEntry {
    type V = EntryModel;

    open spec fn view(&self) -> EntryModel {
        match *self {
            SpecEntry::Function(function) => EntryModel::Function(function@),
            SpecEntry::Struct(definition) => EntryModel::Struct(definition@),
            SpecEntry::Union(definition) => EntryModel::Union(definition@),
            SpecEntry::Enum(definition) => EntryModel::Enum(definition@),
            SpecEntry::ErrorEnum(definition) => EntryModel::ErrorEnum(definition@),
        }
    }
}

/// The models of a sequence of parameters or fields.
pub open spec fn member_models(members: Seq<SpecMember>) -> Seq<MemberModel> {
    Seq::new(members.len(), |i: int| members[i]@)
}

/// The models of a sequence of structs.
pub open spec fn struct_models(structs: Seq<SpecStruct>) -> Seq<StructModel> {
    Seq::new(structs.len(), |i: int| structs[i]@)
}

/// The models of a sequence of union cases.
pub open spec fn union_case_models(cases: Seq<SpecUnionCase>) -> Seq<UnionCaseModel> {
    Seq::new(cases.len(), |i: int| cases[i]@)
}

/// The models of a sequence of enum cases.
pub open spec fn enum_case_models(cases: Seq<SpecEnumCase>) -> Seq<EnumCaseModel> {
    Seq::new(cases.len(), |i: int| cases[i]@)
}

/// The models of a sequence of entries.
pub open spec fn entry_models(entries: Seq<SpecEntry>) -> Seq<EntryModel> {
    Seq::new(entries.len(), |i: int| entries[i]@)
}

} // verus!
