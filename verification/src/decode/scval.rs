//! Contract values.

use vstd::prelude::*;

verus! {

/// What kind of error a host function reports.
#[derive(Debug, Clone, Copy, PartialEq, Eq)]
pub enum ScErrorCode {
    UnexpectedType,
    UnexpectedSize,
    MissingValue,
    InternalError,
    ExceededLimit,
    InvalidAction,
    InvalidInput,
}

/// An error value.
#[derive(Debug, Clone, Copy, PartialEq, Eq)]
pub enum ScError {
    Contract(u32),
    WasmVm(ScErrorCode),
    Context(ScErrorCode),
    Storage(ScErrorCode),
    Object(ScErrorCode),
    Crypto(ScErrorCode),
    Events(ScErrorCode),
    Budget(ScErrorCode),
    Value(ScErrorCode),
    Auth(ScErrorCode),
}

/// An address value.
#[derive(Debug, Clone, Copy, PartialEq, Eq)]
pub enum ScAddress {
    /// The ed25519 public key of an account.
    Account([u8; 32]),
    /// The identifier of a contract.
    Contract([u8; 32]),
}

/// What a contract instance runs.
#[derive(Debug, Clone, Copy, PartialEq, Eq)]
pub enum ContractExecutable {
    /// The hash of WebAssembly code.
    Wasm([u8; 32]),
    StellarAsset,
}

/// An integer of 128 bits without sign: its high and its low half.
#[derive(Debug, Clone, Copy, PartialEq, Eq)]
pub struct UInt128Parts {
    pub hi: u64,
    pub lo: u64,
}

/// An integer of 128 bits with sign: its high and its low half.
#[derive(Debug, Clone, Copy, PartialEq, Eq)]
pub struct Int128Parts {
    pub hi: i64,
    pub lo: u64,
}

/// A contract value that JSON can stand for.
#[derive(Debug, PartialEq, Eq)]
pub enum ScVal {
    Void,
    Bool(bool),
    Error(ScError),
    U32(u32),
    I32(i32),
    U64(u64),
    I64(i64),
    U128(UInt128Parts),
    I128(Int128Parts),
    Bytes(Vec<u8>),
    /// The bytes of a text.
    String(Vec<u8>),
    Vec(Option<Vec<ScVal>>),
    Mapping(Option<Vec<ScMapEntry>>),
    Address(ScAddress),
    ContractInstance(ScContractInstance),
    LedgerKeyContractInstance,
    LedgerKeyNonce(i64),
}

/// An entry of a map value.
#[derive(Debug, PartialEq, Eq)]
pub struct ScMapEntry {
    pub key: ScVal,
    pub val: ScVal,
}

/// A contract instance.
#[derive(Debug, PartialEq, Eq)]
pub struct ScContractInstance {
    pub executable: ContractExecutable,
    pub storage: Option<Vec<ScMapEntry>>,
}

/// The model of [`ScAddress`].
pub enum AddressModel {
    Account(Seq<u8>),
    Contract(Seq<u8>),
}

/// The model of [`ContractExecutable`].
pub enum ExecutableModel {
    Wasm(Seq<u8>),
    StellarAsset,
}

impl View for ScAddress {
    type V = AddressModel;

    open spec fn view(&self) -> AddressModel {
        match *self {
            ScAddress::Account(key) => AddressModel::Account(key@),
            ScAddress::Contract(id) => AddressModel::Contract(id@),
        }
    }
}

impl View for ContractExecutable {
    type V = ExecutableModel;

    open spec fn view(&self) -> ExecutableModel {
        match *self {
            ContractExecutable::Wasm(hash) => ExecutableModel::Wasm(hash@),
            ContractExecutable::StellarAsset => ExecutableModel::StellarAsset,
        }
    }
}

/// The model of [`ScVal`].
pub enum ScValModel {
    Void,
    Bool(bool),
    Error(ScError),
    U32(u32),
    I32(i32),
    U64(u64),
    I64(i64),
    U128(UInt128Parts),
    I128(Int128Parts),
    Bytes(Seq<u8>),
    String(Seq<u8>),
    Vec(Option<Seq<ScValModel>>),
    Mapping(Option<Seq<(ScValModel, ScValModel)>>),
    Address(AddressModel),
    ContractInstance {
        executable: ExecutableModel,
        storage: Option<Seq<(ScValModel, ScValModel)>>,
    },
    LedgerKeyContractInstance,
    LedgerKeyNonce(i64),
}

impl ScVal {
    /// The model of the value.
    pub open spec fn model(self) -> ScValModel
        decreases self,
    {
        match self {
            ScVal::Void => ScValModel::Void,
            ScVal::Bool(b) => ScValModel::Bool(b),
            ScVal::Error(error) => ScValModel::Error(error),
            ScVal::U32(n) => ScValModel::U32(n),
            ScVal::I32(n) => ScValModel::I32(n),
            ScVal::U64(n) => ScValModel::U64(n),
            ScVal::I64(n) => ScValModel::I64(n),
            ScVal::U128(parts) => ScValModel::U128(parts),
            ScVal::I128(parts) => ScValModel::I128(parts),
            ScVal::Bytes(bytes) => ScValModel::Bytes(bytes@),
            ScVal::String(bytes) => ScValModel::String(bytes@),
            ScVal::Vec(None) => ScValModel::Vec(None),
            ScVal::Vec(Some(elements)) => ScValModel::Vec(
                Some(
                    Seq::new(
                        elements@.len(),
                        |i: int|
                            if 0 <= i < elements@.len() {
                                elements@[i].model()
                            } else {
                                ScValModel::Void
                            },
                    ),
                ),
            ),
            ScVal::Mapping(None) => ScValModel::Mapping(None),
            ScVal::Mapping(Some(entries)) => ScValModel::Mapping(
                Some(
                    Seq::new(
                        entries@.len(),
                        |i: int|
                            if 0 <= i < entries@.len() {
                                (entries@[i].key.model(), entries@[i].val.model())
                            } else {
                                (ScValModel::Void, ScValModel::Void)
                            },
                    ),
                ),
            ),
            ScVal::Address(address) => ScValModel::Address(address@),
            ScVal::ContractInstance(instance) => ScValModel::ContractInstance {
                executable: instance.executable@,
                storage: match instance.storage {
                    None => None,
                    Some(entries) => Some(
                        Seq::new(
                            entries@.len(),
                            |i: int|
                                if 0 <= i < entries@.len() {
                                    (entries@[i].key.model(), entries@[i].val.model())
                                } else {
                                    (ScValModel::Void, ScValModel::Void)
                                },
                        ),
                    ),
                },
            },
            ScVal::LedgerKeyContractInstance => ScValModel::LedgerKeyContractInstance,
            ScVal::LedgerKeyNonce(nonce) => ScValModel::LedgerKeyNonce(nonce),
        }
    }
}

/// The models of several values.
pub open spec fn scval_models(values: Seq<ScVal>) -> Seq<ScValModel> {
    Seq::new(values.len(), |i: int| values[i].model())
}

/// The models of several map entries.
pub open spec fn map_entry_models(entries: Seq<ScMapEntry>) -> Seq<(ScValModel, ScValModel)> {
    Seq::new(entries.len(), |i: int| (entries[i].key.model(), entries[i].val.model()))
}

/// The integer that a value stands for.
pub open spec fn integer_value(value: ScValModel) -> Option<int> {
    match value {
        ScValModel::U32(n) => Some(n as int),
        ScValModel::I32(n) => Some(n as int),
        ScValModel::U64(n) => Some(n as int),
        ScValModel::I64(n) => Some(n as int),
        ScValModel::U128(parts) => Some(parts.hi * 0x1_0000_0000_0000_0000 + parts.lo),
        ScValModel::I128(parts) => Some(parts.hi * 0x1_0000_0000_0000_0000 + parts.lo),
        _ => None,
    }
}

/// A value is seen as it is, kind by kind.
pub proof fn plain_values_are_seen_by_their_kind(
    b: bool,
    error: ScError,
    unsigned: u64,
    signed: i64,
    halves: UInt128Parts,
    signed_halves: Int128Parts,
    bytes: Vec<u8>,
    key: [u8; 32],
)
    ensures
        ScVal::Void.model() is Void,
        ScVal::Bool(b).model() == ScValModel::Bool(b),
        ScVal::Error(error).model() == ScValModel::Error(error),
        ScVal::U32(unsigned as u32).model() == ScValModel::U32(unsigned as u32),
        ScVal::I32(signed as i32).model() == ScValModel::I32(signed as i32),
        ScVal::U64(unsigned).model() == ScValModel::U64(unsigned),
        ScVal::I64(signed).model() == ScValModel::I64(signed),
        ScVal::U128(halves).model() == ScValModel::U128(halves),
        ScVal::I128(signed_halves).model() == ScValModel::I128(signed_halves),
        ScVal::Bytes(bytes).model() == ScValModel::Bytes(bytes@),
        ScVal::String(bytes).model() == ScValModel::String(bytes@),
        ScVal::Address(ScAddress::Account(key)).model() == ScValModel::Address(
            AddressModel::Account(key@),
        ),
        ScVal::Address(ScAddress::Contract(key)).model() == ScValModel::Address(
            AddressModel::Contract(key@),
        ),
        ContractExecutable::Wasm(key)@ == ExecutableModel::Wasm(key@),
        ContractExecutable::StellarAsset@ is StellarAsset,
        ScVal::LedgerKeyContractInstance.model() is LedgerKeyContractInstance,
        ScVal::LedgerKeyNonce(signed).model() == ScValModel::LedgerKeyNonce(signed),
{
}

/// A vector, a map and a contract instance are seen with their parts one for one.
pub proof fn parts_of_values_are_seen_one_for_one(
    elements: Vec<ScVal>,
    entries: Vec<ScMapEntry>,
    executable: ContractExecutable,
)
    ensures
        ScVal::Vec(Some(elements)).model() matches ScValModel::Vec(Some(own)) && own.len()
            == elements@.len() && forall|i: int|
            0 <= i < own.len() ==> #[trigger] own[i] == elements@[i].model(),
        ScVal::Mapping(Some(entries)).model() matches ScValModel::Mapping(Some(own)) && own.len()
            == entries@.len() && forall|i: int|
            0 <= i < own.len() ==> #[trigger] own[i] == (
                entries@[i].key.model(),
                entries@[i].val.model(),
            ),
        ScVal::ContractInstance(
            ScContractInstance { executable, storage: Some(entries) },
        ).model() matches ScValModel::ContractInstance { executable: runs, storage: Some(own) }
            && runs == executable@ && own.len() == entries@.len() && forall|i: int|
            0 <= i < own.len() ==> #[trigger] own[i] == (
                entries@[i].key.model(),
                entries@[i].val.model(),
            ),
        ScVal::ContractInstance(ScContractInstance { executable, storage: None }).model() == (
        ScValModel::ContractInstance { executable: executable@, storage: None }),
        ScVal::Vec(None).model() == ScValModel::Vec(None),
        ScVal::Mapping(None).model() == ScValModel::Mapping(None),
        scval_models(elements@).len() == elements@.len(),
        forall|i: int|
            0 <= i < elements@.len() ==> #[trigger] scval_models(elements@)[i]
                == elements@[i].model(),
        map_entry_models(entries@).len() == entries@.len(),
        forall|i: int|
            0 <= i < entries@.len() ==> #[trigger] map_entry_models(entries@)[i] == (
                entries@[i].key.model(),
                entries@[i].val.model(),
            ),
{
}

} // verus!
