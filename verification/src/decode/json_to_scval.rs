//! Contract values out of JSON.

use vstd::prelude::*;
use vstd::string::*;
use vstd::utf8::*;

use crate::decode::number::{parse_signed, parse_unsigned, signed_integer, unsigned_integer};
use crate::decode::scval::{
    map_entry_models, scval_models, AddressModel, ContractExecutable,
    ExecutableModel, Int128Parts, ScAddress, ScContractInstance, ScError, ScErrorCode, ScMapEntry,
    ScVal, ScValModel, UInt128Parts,
};
use crate::hex_text::{decode_hex, hex_bytes, is_hex};
use crate::json::{
    find_member, has_key, integer_of, json_models, lookup, member_models, optional_model,
    position, string_of, JsonMember, JsonModel, JsonNumber, JsonValue,
    NumberModel,
};
use crate::text::{append, owned, same_text};

verus! {

/// How deep the values inside a value may be nested.
pub const MAX_SCVAL_DEPTH: usize = 100;

/// The most elements, entries or bytes that a value can hold.
pub const MAX_LENGTH: u64 = 0xffff_ffff;

/// Why JSON does not stand for a contract value.
#[derive(Debug, Clone, PartialEq, Eq)]
pub enum ConvertError {
    DepthExceeded,
    /// A number that is no integer, as it is written.
    UnsupportedNumber(String),
    MapTooLarge,
    ArrayTooLarge,
    BytesTooLarge,
    StringTooLong,
    /// Part of the value was left out when the JSON was written.
    Truncated,
}

/// The model of [`ConvertError`].
pub enum ConvertErrorModel {
    DepthExceeded,
    UnsupportedNumber(Seq<char>),
    MapTooLarge,
    ArrayTooLarge,
    BytesTooLarge,
    StringTooLong,
    Truncated,
}

impl View for ConvertError {
    type V = ConvertErrorModel;

    open spec fn view(&self) -> ConvertErrorModel {
        match *self {
            ConvertError::DepthExceeded => ConvertErrorModel::DepthExceeded,
            ConvertError::UnsupportedNumber(text) => ConvertErrorModel::UnsupportedNumber(text@),
            ConvertError::MapTooLarge => ConvertErrorModel::MapTooLarge,
            ConvertError::ArrayTooLarge => ConvertErrorModel::ArrayTooLarge,
            ConvertError::BytesTooLarge => ConvertErrorModel::BytesTooLarge,
            ConvertError::StringTooLong => ConvertErrorModel::StringTooLong,
            ConvertError::Truncated => ConvertErrorModel::Truncated,
        }
    }
}

impl ConvertErrorModel {
    /// The text that [`ConvertError::message`] returns.
    pub open spec fn message(self) -> Seq<char> {
        match self {
            ConvertErrorModel::DepthExceeded => "max recursion depth (100) exceeded"@,
            ConvertErrorModel::UnsupportedNumber(text) =>
                "unsupported float or out of bounds number: "@ + text,
            ConvertErrorModel::MapTooLarge => "map too large"@,
            ConvertErrorModel::ArrayTooLarge => "array too large"@,
            ConvertErrorModel::BytesTooLarge => "bytes too large"@,
            ConvertErrorModel::StringTooLong => "string too long"@,
            ConvertErrorModel::Truncated => "cannot convert truncated JSON back to ScVal"@,
        }
    }
}

impl ConvertError {
    /// The error as one line of text.
    pub fn message(&self) -> (text: String)
        ensures
            text@ == self@.message(),
    {
        match self {
            ConvertError::DepthExceeded => owned("max recursion depth (100) exceeded"),
            ConvertError::UnsupportedNumber(number) => {
                let mut text = owned("unsupported float or out of bounds number: ");
                append(&mut text, number.as_str());
                text
            },
            ConvertError::MapTooLarge => owned("map too large"),
            ConvertError::ArrayTooLarge => owned("array too large"),
            ConvertError::BytesTooLarge => owned("bytes too large"),
            ConvertError::StringTooLong => owned("string too long"),
            ConvertError::Truncated => owned("cannot convert truncated JSON back to ScVal"),
        }
    }
}

/// The key that `stellar_strkey::ed25519::PublicKey::from_string` reads in `text`.
pub uninterp spec fn account_key(text: Seq<char>) -> Option<Seq<u8>>;

/// The identifier that `stellar_strkey::Contract::from_string` reads in `text`.
pub uninterp spec fn contract_id(text: Seq<char>) -> Option<Seq<u8>>;

/// The bytes of an array that may be absent.
pub open spec fn optional_bytes(bytes: Option<[u8; 32]>) -> Option<Seq<u8>> {
    match bytes {
        Some(bytes) => Some(bytes@),
        None => None,
    }
}

/// The ed25519 public key in the text of an account's address.
///
/// Calls `stellar_strkey::ed25519::PublicKey::from_string`. Claimed: the outcome depends
/// on the text alone.
#[verifier::external_body]
fn decode_account(text: &str) -> (key: Option<[u8; 32]>)
    ensures
        optional_bytes(key) == account_key(text@),
{
    stellar_strkey::ed25519::PublicKey::from_string(text).ok().map(|key| key.0)
}

/// The identifier in the text of a contract's address.
///
/// Calls `stellar_strkey::Contract::from_string`. Claimed: the outcome depends on the
/// text alone.
#[verifier::external_body]
fn decode_contract(text: &str) -> (id: Option<[u8; 32]>)
    ensures
        optional_bytes(id) == contract_id(text@),
{
    stellar_strkey::Contract::from_string(text).ok().map(|contract| contract.0)
}

/// `n` split in two halves of 64 bits.
pub open spec fn unsigned_parts(n: int) -> UInt128Parts {
    UInt128Parts {
        hi: (n / 0x1_0000_0000_0000_0000) as u64,
        lo: (n % 0x1_0000_0000_0000_0000) as u64,
    }
}

/// `n` split in two halves of 64 bits, of which the high one has the sign.
pub open spec fn signed_parts(n: int) -> Int128Parts {
    Int128Parts {
        hi: (n / 0x1_0000_0000_0000_0000) as i64,
        lo: (n % 0x1_0000_0000_0000_0000) as u64,
    }
}

/// Whether `text` begins with `first` and has the length of an address.
pub open spec fn looks_like_address(text: Seq<char>, first: char) -> bool {
    text.len() > 0 && text[0] == first && encode_utf8(text).len() == 56
}

/// What an integer that is written as text stands for; nothing where the integer, if
/// any, needs no more than 64 bits, or more than 128.
pub open spec fn large_integer(text: Seq<char>) -> Option<ScValModel> {
    match unsigned_integer(text) {
        Some(n) if u64::MAX < n <= u128::MAX => Some(ScValModel::U128(unsigned_parts(n))),
        _ => match signed_integer(text) {
            Some(n) if i128::MIN <= n < i64::MIN || i64::MAX < n <= i128::MAX => Some(
                ScValModel::I128(signed_parts(n)),
            ),
            _ => None,
        },
    }
}

/// What a text stands for, where `account` and `contract` are the key and the identifier
/// that the text is the address of.
pub open spec fn text_value(
    text: Seq<char>,
    account: Option<Seq<u8>>,
    contract: Option<Seq<u8>>,
) -> Result<ScValModel, ConvertErrorModel> {
    if text == "LedgerKeyContractInstance"@ {
        Ok(ScValModel::LedgerKeyContractInstance)
    } else if "0x"@.is_prefix_of(text) && is_hex(text.skip(2)) {
        if hex_bytes(text.skip(2)).len() > MAX_LENGTH {
            Err(ConvertErrorModel::BytesTooLarge)
        } else {
            Ok(ScValModel::Bytes(hex_bytes(text.skip(2))))
        }
    } else if looks_like_address(text, 'G') && account is Some {
        Ok(ScValModel::Address(AddressModel::Account(account->0)))
    } else if looks_like_address(text, 'C') && contract is Some {
        Ok(ScValModel::Address(AddressModel::Contract(contract->0)))
    } else if large_integer(text) is Some {
        Ok(large_integer(text)->0)
    } else if encode_utf8(text).len() > MAX_LENGTH {
        Err(ConvertErrorModel::StringTooLong)
    } else {
        Ok(ScValModel::String(encode_utf8(text)))
    }
}

/// What a text stands for.
pub open spec fn string_value(text: Seq<char>) -> Result<ScValModel, ConvertErrorModel> {
    text_value(text, account_key(text), contract_id(text))
}

/// What a number stands for: the narrowest of `U32`, `I32`, `I64` and `U64`, in this
/// order, that holds it.
pub open spec fn number_value(number: NumberModel) -> Result<ScValModel, ConvertErrorModel> {
    match integer_of(number) {
        Some(n) => if 0 <= n <= u32::MAX {
            Ok(ScValModel::U32(n as u32))
        } else if i32::MIN <= n < 0 {
            Ok(ScValModel::I32(n as i32))
        } else if n < 0 {
            Ok(ScValModel::I64(n as i64))
        } else {
            Ok(ScValModel::U64(n as u64))
        },
        None => Err(ConvertErrorModel::UnsupportedNumber(number->Float_0)),
    }
}

/// The error code with the given name.
pub open spec fn error_code(name: Seq<char>) -> Option<ScErrorCode> {
    if name == "UnexpectedType"@ {
        Some(ScErrorCode::UnexpectedType)
    } else if name == "UnexpectedSize"@ {
        Some(ScErrorCode::UnexpectedSize)
    } else if name == "MissingValue"@ {
        Some(ScErrorCode::MissingValue)
    } else if name == "InternalError"@ {
        Some(ScErrorCode::InternalError)
    } else if name == "ExceededLimit"@ {
        Some(ScErrorCode::ExceededLimit)
    } else if name == "InvalidAction"@ {
        Some(ScErrorCode::InvalidAction)
    } else if name == "InvalidInput"@ {
        Some(ScErrorCode::InvalidInput)
    } else {
        None
    }
}

/// The error of the given type, with a code that is not the contract's own.
pub open spec fn host_error(kind: Seq<char>, code: ScErrorCode) -> Option<ScError> {
    if kind == "WasmVm"@ {
        Some(ScError::WasmVm(code))
    } else if kind == "Context"@ {
        Some(ScError::Context(code))
    } else if kind == "Storage"@ {
        Some(ScError::Storage(code))
    } else if kind == "Object"@ {
        Some(ScError::Object(code))
    } else if kind == "Crypto"@ {
        Some(ScError::Crypto(code))
    } else if kind == "Events"@ {
        Some(ScError::Events(code))
    } else if kind == "Budget"@ {
        Some(ScError::Budget(code))
    } else if kind == "Value"@ {
        Some(ScError::Value(code))
    } else if kind == "Auth"@ {
        Some(ScError::Auth(code))
    } else {
        None
    }
}

/// The error that an object with the members `type` and `code` stands for. The code of a
/// contract's own error is a number, of which the low 32 bits count; any other code is a
/// name.
pub open spec fn error_value(members: Seq<(Seq<char>, JsonModel)>) -> Option<ScError> {
    let kind = string_of(lookup(members, "type"@));
    let code = lookup(members, "code"@);
    if kind == Some("Contract"@) {
        match code {
            Some(JsonModel::Number(NumberModel::PosInt(n))) => Some(
                ScError::Contract((n as int % 0x1_0000_0000) as u32),
            ),
            _ => None,
        }
    } else {
        match (kind, string_of(code)) {
            (Some(kind), Some(name)) => match error_code(name) {
                Some(code) => host_error(kind, code),
                None => None,
            },
            _ => None,
        }
    }
}

/// The error that an object is marked as.
pub open spec fn marked_error(members: Seq<(Seq<char>, JsonModel)>) -> Option<ScError> {
    if members.len() == 2 && has_key(members, "type"@) && has_key(members, "code"@) {
        error_value(members)
    } else {
        None
    }
}

/// The nonce that an object is marked as.
pub open spec fn marked_nonce(members: Seq<(Seq<char>, JsonModel)>) -> Option<i64> {
    if members.len() == 1 {
        match lookup(members, "nonce"@) {
            Some(JsonModel::Number(NumberModel::PosInt(n))) if n <= i64::MAX => Some(n as i64),
            Some(JsonModel::Number(NumberModel::NegInt(n))) => Some(n),
            _ => None,
        }
    } else {
        None
    }
}

/// `text` without the prefix of hexadecimal text, where it has one.
pub open spec fn without_hex_prefix(text: Seq<char>) -> Seq<char> {
    if "0x"@.is_prefix_of(text) {
        text.skip(2)
    } else {
        text
    }
}

/// What a contract instance runs, out of the member `executable`.
pub open spec fn executable_value(executable: Option<JsonModel>) -> Option<ExecutableModel> {
    match executable {
        Some(JsonModel::Object(members)) => {
            let kind = string_of(lookup(members, "type"@));
            if kind == Some("Wasm"@) {
                match string_of(lookup(members, "wasmHash"@)) {
                    Some(text) => if is_hex(without_hex_prefix(text)) && hex_bytes(
                        without_hex_prefix(text),
                    ).len() == 32 {
                        Some(ExecutableModel::Wasm(hex_bytes(without_hex_prefix(text))))
                    } else {
                        None
                    },
                    None => None,
                }
            } else if kind == Some("StellarAsset"@) {
                Some(ExecutableModel::StellarAsset)
            } else {
                None
            }
        },
        _ => None,
    }
}

/// Whether a value is an object with the members `key` and `value` and no other.
pub open spec fn is_entry(value: JsonModel) -> bool {
    match value {
        JsonModel::Object(members) => members.len() == 2 && has_key(members, "key"@) && has_key(
            members,
            "value"@,
        ),
        _ => false,
    }
}

/// Whether an array is a map written out as its entries.
pub open spec fn is_entry_list(elements: Seq<JsonModel>) -> bool {
    &&& elements.len() > 0
    &&& forall|i: int| 0 <= i < elements.len() ==> is_entry(#[trigger] elements[i])
}

/// A map with the given entries.
pub open spec fn map_value(
    entries: Result<Seq<(ScValModel, ScValModel)>, ConvertErrorModel>,
) -> Result<ScValModel, ConvertErrorModel> {
    match entries {
        Ok(entries) => if entries.len() > MAX_LENGTH {
            Err(ConvertErrorModel::MapTooLarge)
        } else {
            Ok(ScValModel::Mapping(Some(entries)))
        },
        Err(error) => Err(error),
    }
}

/// What a JSON value stands for that is nested `depth` levels deep.
pub open spec fn converted(value: JsonModel, depth: nat) -> Result<ScValModel, ConvertErrorModel>
    decreases value, 0nat,
{
    if depth > MAX_SCVAL_DEPTH {
        Err(ConvertErrorModel::DepthExceeded)
    } else {
        match value {
            JsonModel::Null => Ok(ScValModel::Void),
            JsonModel::Bool(b) => Ok(ScValModel::Bool(b)),
            JsonModel::Number(number) => number_value(number),
            JsonModel::String(text) => string_value(text),
            JsonModel::Array(elements) => if is_entry_list(elements) {
                map_value(converted_entries(elements, elements.len(), depth + 1))
            } else {
                match converted_elements(elements, elements.len(), depth + 1) {
                    Ok(values) => if values.len() > MAX_LENGTH {
                        Err(ConvertErrorModel::ArrayTooLarge)
                    } else {
                        Ok(ScValModel::Vec(Some(values)))
                    },
                    Err(error) => Err(error),
                }
            },
            JsonModel::Object(members) => if has_key(members, "__truncated__"@) {
                Err(ConvertErrorModel::Truncated)
            } else if marked_error(members) is Some {
                Ok(ScValModel::Error(marked_error(members)->0))
            } else if marked_nonce(members) is Some {
                Ok(ScValModel::LedgerKeyNonce(marked_nonce(members)->0))
            } else if marked_instance(members, depth) is Some {
                Ok(marked_instance(members, depth)->0)
            } else {
                map_value(converted_members(members, members.len(), depth + 1))
            },
        }
    }
}

/// What the first `count` of `elements` stand for; the first that stands for nothing
/// decides.
pub open spec fn converted_elements(elements: Seq<JsonModel>, count: nat, depth: nat) -> Result<
    Seq<ScValModel>,
    ConvertErrorModel,
>
    decreases elements, count,
{
    if count == 0 || count > elements.len() {
        Ok(Seq::empty())
    } else {
        match converted_elements(elements, (count - 1) as nat, depth) {
            Ok(values) => match converted(elements[count - 1], depth) {
                Ok(value) => Ok(values.push(value)),
                Err(error) => Err(error),
            },
            Err(error) => Err(error),
        }
    }
}

/// The entries that the first `count` of `elements` stand for, each with its members
/// `key` and `value`; the first key or value that stands for nothing decides.
pub open spec fn converted_entries(elements: Seq<JsonModel>, count: nat, depth: nat) -> Result<
    Seq<(ScValModel, ScValModel)>,
    ConvertErrorModel,
>
    decreases elements, count,
{
    if count == 0 || count > elements.len() {
        Ok(Seq::empty())
    } else {
        match converted_entries(elements, (count - 1) as nat, depth) {
            Ok(entries) => match elements[count - 1] {
                JsonModel::Object(members) => if has_key(members, "key"@) && has_key(
                    members,
                    "value"@,
                ) {
                    let key_at = position(members, "key"@);
                    let value_at = position(members, "value"@);
                    proof {
                        let element = elements[count - 1];
                        assert(decreases_to!(elements => element));
                        assert(decreases_to!(element => element->Object_0));
                        assert(decreases_to!(members => members[key_at]));
                        assert(decreases_to!(members[key_at] => members[key_at].1));
                        assert(decreases_to!(members => members[value_at]));
                        assert(decreases_to!(members[value_at] => members[value_at].1));
                    }
                    match converted(members[key_at].1, depth) {
                        Ok(key) => match converted(members[value_at].1, depth) {
                            Ok(value) => Ok(entries.push((key, value))),
                            Err(error) => Err(error),
                        },
                        Err(error) => Err(error),
                    }
                } else {
                    Ok(entries)
                },
                _ => Ok(entries),
            },
            Err(error) => Err(error),
        }
    }
}

/// The entries that the first `count` of `members` stand for, each key as a text; the
/// first key or value that stands for nothing decides.
pub open spec fn converted_members(
    members: Seq<(Seq<char>, JsonModel)>,
    count: nat,
    depth: nat,
) -> Result<Seq<(ScValModel, ScValModel)>, ConvertErrorModel>
    decreases members, count,
{
    if count == 0 || count > members.len() {
        Ok(Seq::empty())
    } else {
        match converted_members(members, (count - 1) as nat, depth) {
            Ok(entries) => match string_value(members[count - 1].0) {
                Ok(key) => {
                    proof {
                        assert(decreases_to!(members => members[count - 1]));
                        assert(decreases_to!(members[count - 1] => members[count - 1].1));
                    }
                    match converted(members[count - 1].1, depth) {
                        Ok(value) => Ok(entries.push((key, value))),
                        Err(error) => Err(error),
                    }
                },
                Err(error) => Err(error),
            },
            Err(error) => Err(error),
        }
    }
}

/// The contract instance that an object is marked as.
pub open spec fn marked_instance(members: Seq<(Seq<char>, JsonModel)>, depth: nat) -> Option<
    ScValModel,
>
    decreases members, 0nat,
{
    let executable = executable_value(lookup(members, "executable"@));
    if executable is Some && has_key(members, "storage"@) {
        let at = position(members, "storage"@);
        proof {
            assert(decreases_to!(members => members[at]));
            assert(decreases_to!(members[at] => members[at].1));
        }
        if members[at].1 is Null {
            Some(ScValModel::ContractInstance { executable: executable->0, storage: None })
        } else {
            match converted(members[at].1, depth + 1) {
                Ok(ScValModel::Mapping(Some(entries))) => Some(
                    ScValModel::ContractInstance {
                        executable: executable->0,
                        storage: Some(entries),
                    },
                ),
                _ => None,
            }
        }
    } else {
        None
    }
}

/// The model of what a conversion gave.
pub open spec fn convert_result(result: Result<ScVal, ConvertError>) -> Result<
    ScValModel,
    ConvertErrorModel,
> {
    match result {
        Ok(value) => Ok(value.model()),
        Err(error) => Err(error@),
    }
}

/// The model of what converting several entries gave.
pub open spec fn entries_result(result: Result<Vec<ScMapEntry>, ConvertError>) -> Result<
    Seq<(ScValModel, ScValModel)>,
    ConvertErrorModel,
> {
    match result {
        Ok(entries) => Ok(map_entry_models(entries@)),
        Err(error) => Err(error@),
    }
}

/// Where an element stands for nothing, the rest makes no difference.
proof fn elements_error_decides(elements: Seq<JsonModel>, first: nat, count: nat, depth: nat)
    requires
        first <= count <= elements.len(),
    ensures
        converted_elements(elements, first, depth) is Err ==> converted_elements(
            elements,
            count,
            depth,
        ) == converted_elements(elements, first, depth),
    decreases count,
{
    if first < count {
        elements_error_decides(elements, first, (count - 1) as nat, depth);
    }
}

/// Where an entry stands for nothing, the rest makes no difference.
proof fn entries_error_decides(elements: Seq<JsonModel>, first: nat, count: nat, depth: nat)
    requires
        first <= count <= elements.len(),
    ensures
        converted_entries(elements, first, depth) is Err ==> converted_entries(
            elements,
            count,
            depth,
        ) == converted_entries(elements, first, depth),
    decreases count,
{
    if first < count {
        entries_error_decides(elements, first, (count - 1) as nat, depth);
    }
}

/// Where a member stands for nothing, the rest makes no difference.
proof fn members_error_decides(
    members: Seq<(Seq<char>, JsonModel)>,
    first: nat,
    count: nat,
    depth: nat,
)
    requires
        first <= count <= members.len(),
    ensures
        converted_members(members, first, depth) is Err ==> converted_members(
            members,
            count,
            depth,
        ) == converted_members(members, first, depth),
    decreases count,
{
    if first < count {
        members_error_decides(members, first, (count - 1) as nat, depth);
    }
}

/// What follows the prefix of hexadecimal text.
fn strip_hex_prefix(text: &str) -> (rest: Option<&str>)
    ensures
        match rest {
            Some(rest) => "0x"@.is_prefix_of(text@) && rest@ == text@.skip(2),
            None => !"0x"@.is_prefix_of(text@),
        },
{
    proof {
        reveal_strlit("0x");
    }
    let length: usize = text.unicode_len();
    if length >= 2 && text.get_char(0) == '0' && text.get_char(1) == 'x' {
        assert("0x"@ =~= text@.subrange(0, 2));
        assert(text@.skip(2) =~= text@.subrange(2, length as int));
        Some(text.substring_char(2, length))
    } else {
        proof {
            if "0x"@.is_prefix_of(text@) {
                assert("0x"@[0] == text@[0]);
                assert("0x"@[1] == text@[1]);
            }
        }
        None
    }
}

/// Whether `text` begins with `first` and has the length of an address.
fn may_be_address(text: &str, first: char) -> (may_be: bool)
    ensures
        may_be == looks_like_address(text@, first),
{
    text.unicode_len() > 0 && text.get_char(0) == first && text.as_bytes().len() == 56
}

/// What an integer that is written as text stands for; nothing where the integer, if
/// any, needs no more than 64 bits, or more than 128.
fn parse_large_integer(text: &str) -> (value: Option<ScVal>)
    ensures
        match value {
            Some(value) => large_integer(text@) == Some(value.model()),
            None => large_integer(text@) is None,
        },
{
    if let Some(n) = parse_unsigned(text) {
        if n > 0xffff_ffff_ffff_ffff {
            return Some(
                ScVal::U128(
                    UInt128Parts {
                        hi: (n / 0x1_0000_0000_0000_0000) as u64,
                        lo: (n % 0x1_0000_0000_0000_0000) as u64,
                    },
                ),
            );
        }
    }
    match parse_signed(text) {
        Some(n) => if n < -0x8000_0000_0000_0000 {
            let below: i128 = -(n + 1);
            let hi: i128 = -1 - below / 0x1_0000_0000_0000_0000;
            let lo: i128 = 0xffff_ffff_ffff_ffff - below % 0x1_0000_0000_0000_0000;
            Some(ScVal::I128(Int128Parts { hi: hi as i64, lo: lo as u64 }))
        } else if n > 0x7fff_ffff_ffff_ffff {
            Some(
                ScVal::I128(
                    Int128Parts {
                        hi: (n / 0x1_0000_0000_0000_0000) as i64,
                        lo: (n % 0x1_0000_0000_0000_0000) as u64,
                    },
                ),
            )
        } else {
            None
        },
        None => None,
    }
}

/// What a text stands for, where `account` and `contract` are the key and the identifier
/// that the text is the address of.
pub fn convert_text(text: &str, account: Option<[u8; 32]>, contract: Option<[u8; 32]>) -> (value:
    Result<ScVal, ConvertError>)
    ensures
        convert_result(value) == text_value(
            text@,
            optional_bytes(account),
            optional_bytes(contract),
        ),
{
    if same_text(text, "LedgerKeyContractInstance") {
        return Ok(ScVal::LedgerKeyContractInstance);
    }
    if let Some(digits) = strip_hex_prefix(text) {
        if let Some(bytes) = decode_hex(digits) {
            if bytes.len() as u64 > MAX_LENGTH {
                return Err(ConvertError::BytesTooLarge);
            }
            return Ok(ScVal::Bytes(bytes));
        }
    }
    if may_be_address(text, 'G') {
        if let Some(key) = account {
            return Ok(ScVal::Address(ScAddress::Account(key)));
        }
    }
    if may_be_address(text, 'C') {
        if let Some(id) = contract {
            return Ok(ScVal::Address(ScAddress::Contract(id)));
        }
    }
    if let Some(value) = parse_large_integer(text) {
        return Ok(value);
    }
    let bytes = text.as_bytes_vec();
    if bytes.len() as u64 > MAX_LENGTH {
        return Err(ConvertError::StringTooLong);
    }
    Ok(ScVal::String(bytes))
}

/// What a text stands for.
pub fn convert_string(text: &str) -> (value: Result<ScVal, ConvertError>)
    ensures
        convert_result(value) == string_value(text@),
{
    let account = if may_be_address(text, 'G') {
        decode_account(text)
    } else {
        None
    };
    let contract = if may_be_address(text, 'C') {
        decode_contract(text)
    } else {
        None
    };
    convert_text(text, account, contract)
}

/// What a number stands for.
pub fn convert_number(number: &JsonNumber) -> (value: Result<ScVal, ConvertError>)
    ensures
        convert_result(value) == number_value(number@),
{
    match number {
        JsonNumber::PosInt(n) => if *n <= 0xffff_ffff {
            Ok(ScVal::U32(*n as u32))
        } else {
            Ok(ScVal::U64(*n))
        },
        JsonNumber::NegInt(n) => if 0 <= *n && *n <= 0xffff_ffff {
            Ok(ScVal::U32(*n as u32))
        } else if -0x8000_0000 <= *n && *n < 0 {
            Ok(ScVal::I32(*n as i32))
        } else if *n < 0 {
            Ok(ScVal::I64(*n))
        } else {
            Ok(ScVal::U64(*n as u64))
        },
        JsonNumber::Float(text) => Err(ConvertError::UnsupportedNumber(owned(text.as_str()))),
    }
}

/// The error code with the given name.
fn parse_code(name: &str) -> (code: Option<ScErrorCode>)
    ensures
        code == error_code(name@),
{
    if same_text(name, "UnexpectedType") {
        Some(ScErrorCode::UnexpectedType)
    } else if same_text(name, "UnexpectedSize") {
        Some(ScErrorCode::UnexpectedSize)
    } else if same_text(name, "MissingValue") {
        Some(ScErrorCode::MissingValue)
    } else if same_text(name, "InternalError") {
        Some(ScErrorCode::InternalError)
    } else if same_text(name, "ExceededLimit") {
        Some(ScErrorCode::ExceededLimit)
    } else if same_text(name, "InvalidAction") {
        Some(ScErrorCode::InvalidAction)
    } else if same_text(name, "InvalidInput") {
        Some(ScErrorCode::InvalidInput)
    } else {
        None
    }
}

/// The error of the given type, with a code that is not the contract's own.
fn build_host_error(kind: &str, code: ScErrorCode) -> (error: Option<ScError>)
    ensures
        error == host_error(kind@, code),
{
    if same_text(kind, "WasmVm") {
        Some(ScError::WasmVm(code))
    } else if same_text(kind, "Context") {
        Some(ScError::Context(code))
    } else if same_text(kind, "Storage") {
        Some(ScError::Storage(code))
    } else if same_text(kind, "Object") {
        Some(ScError::Object(code))
    } else if same_text(kind, "Crypto") {
        Some(ScError::Crypto(code))
    } else if same_text(kind, "Events") {
        Some(ScError::Events(code))
    } else if same_text(kind, "Budget") {
        Some(ScError::Budget(code))
    } else if same_text(kind, "Value") {
        Some(ScError::Value(code))
    } else if same_text(kind, "Auth") {
        Some(ScError::Auth(code))
    } else {
        None
    }
}

/// The text of the member called `key`, where it is a string.
fn string_member<'a>(members: &'a Vec<JsonMember>, key: &str) -> (text: Option<&'a str>)
    ensures
        match text {
            Some(text) => string_of(lookup(member_models(members@), key@)) == Some(text@),
            None => string_of(lookup(member_models(members@), key@)) is None,
        },
{
    match find_member(members, key) {
        Some(value) => value.as_str(),
        None => None,
    }
}

/// The error that an object with the members `type` and `code` stands for.
fn parse_error(members: &Vec<JsonMember>) -> (error: Option<ScError>)
    ensures
        error == error_value(member_models(members@)),
{
    let kind = match string_member(members, "type") {
        Some(kind) => kind,
        None => {
            return None;
        },
    };
    if same_text(kind, "Contract") {
        return match find_member(members, "code") {
            Some(JsonValue::Number(JsonNumber::PosInt(n))) => Some(
                ScError::Contract((*n % 0x1_0000_0000) as u32),
            ),
            _ => None,
        };
    }
    match string_member(members, "code") {
        Some(name) => match parse_code(name) {
            Some(code) => build_host_error(kind, code),
            None => None,
        },
        None => None,
    }
}

/// The error that an object is marked as.
fn find_marked_error(members: &Vec<JsonMember>) -> (error: Option<ScError>)
    ensures
        error == marked_error(member_models(members@)),
{
    if members.len() == 2 && find_member(members, "type").is_some() && find_member(
        members,
        "code",
    ).is_some() {
        parse_error(members)
    } else {
        None
    }
}

/// The nonce that an object is marked as.
fn find_marked_nonce(members: &Vec<JsonMember>) -> (nonce: Option<i64>)
    ensures
        nonce == marked_nonce(member_models(members@)),
{
    if members.len() == 1 {
        match find_member(members, "nonce") {
            Some(JsonValue::Number(JsonNumber::PosInt(n))) => if *n <= 0x7fff_ffff_ffff_ffff {
                Some(*n as i64)
            } else {
                None
            },
            Some(JsonValue::Number(JsonNumber::NegInt(n))) => Some(*n),
            _ => None,
        }
    } else {
        None
    }
}

/// The 32 bytes of a hash.
fn hash_of(bytes: Vec<u8>) -> (hash: Option<[u8; 32]>)
    ensures
        match hash {
            Some(hash) => bytes@.len() == 32 && hash@ == bytes@,
            None => bytes@.len() != 32,
        },
{
    if bytes.len() != 32 {
        return None;
    }
    let mut hash: [u8; 32] = [0;32];
    let mut i: usize = 0;
    while i < 32
        invariant
            i <= 32,
            bytes@.len() == 32,
            forall|j: int| 0 <= j < i ==> hash@[j] == bytes@[j],
        decreases 32 - i,
    {
        hash[i] = bytes[i];
        i += 1;
    }
    assert(hash@ =~= bytes@);
    Some(hash)
}

/// What a contract instance runs, out of the member `executable`.
fn parse_executable(executable: Option<&JsonValue>) -> (parsed: Option<ContractExecutable>)
    ensures
        match parsed {
            Some(parsed) => executable_value(optional_model(executable)) == Some(parsed@),
            None => executable_value(optional_model(executable)) is None,
        },
{
    let members = match executable {
        Some(JsonValue::Object(members)) => members,
        _ => {
            return None;
        },
    };
    assert(executable->0.model()->Object_0 =~= member_models(members@));
    let kind = match string_member(members, "type") {
        Some(kind) => kind,
        None => {
            return None;
        },
    };
    if same_text(kind, "Wasm") {
        match string_member(members, "wasmHash") {
            Some(text) => {
                let digits = match strip_hex_prefix(text) {
                    Some(rest) => rest,
                    None => text,
                };
                match decode_hex(digits) {
                    Some(bytes) => match hash_of(bytes) {
                        Some(hash) => Some(ContractExecutable::Wasm(hash)),
                        None => None,
                    },
                    None => None,
                }
            },
            None => None,
        }
    } else if same_text(kind, "StellarAsset") {
        Some(ContractExecutable::StellarAsset)
    } else {
        None
    }
}

/// Whether a value is an object with the members `key` and `value` and no other.
fn is_entry_object(value: &JsonValue) -> (is: bool)
    ensures
        is == is_entry(value.model()),
{
    match value {
        JsonValue::Object(members) => {
            assert(value.model()->Object_0 =~= member_models(members@));
            members.len() == 2 && find_member(members, "key").is_some() && find_member(
                members,
                "value",
            ).is_some()
        },
        _ => false,
    }
}

/// Whether an array is a map written out as its entries.
fn is_lossless_map(elements: &Vec<JsonValue>) -> (is: bool)
    ensures
        is == is_entry_list(json_models(elements@)),
{
    let ghost models = json_models(elements@);
    if elements.len() == 0 {
        return false;
    }
    let mut i: usize = 0;
    while i < elements.len()
        invariant
            i <= elements@.len(),
            models == json_models(elements@),
            forall|j: int| 0 <= j < i ==> is_entry(#[trigger] models[j]),
        decreases elements@.len() - i,
    {
        assert(models[i as int] == elements@[i as int].model());
        if !is_entry_object(&elements[i]) {
            return false;
        }
        i += 1;
    }
    true
}

/// A map with the given entries.
fn build_map(entries: Result<Vec<ScMapEntry>, ConvertError>) -> (value: Result<
    ScVal,
    ConvertError,
>)
    ensures
        convert_result(value) == map_value(entries_result(entries)),
{
    match entries {
        Ok(entries) => if entries.len() as u64 > MAX_LENGTH {
            Err(ConvertError::MapTooLarge)
        } else {
            let value = ScVal::Mapping(Some(entries));
            assert(value.model()->Mapping_0->0 =~= map_entry_models(entries@));
            Ok(value)
        },
        Err(error) => Err(error),
    }
}

/// What a JSON value stands for that is nested `depth` levels deep.
pub fn convert(value: &JsonValue, depth: usize) -> (result: Result<ScVal, ConvertError>)
    ensures
        convert_result(result) == converted(value.model(), depth as nat),
    decreases *value,
{
    if depth > MAX_SCVAL_DEPTH {
        return Err(ConvertError::DepthExceeded);
    }
    match value {
        JsonValue::Null => Ok(ScVal::Void),
        JsonValue::Bool(b) => Ok(ScVal::Bool(*b)),
        JsonValue::Number(number) => convert_number(number),
        JsonValue::String(text) => convert_string(text.as_str()),
        JsonValue::Array(elements) => {
            assert(value.model()->Array_0 =~= json_models(elements@));
            assert(decreases_to!(*value => value->Array_0));
            if is_lossless_map(elements) {
                build_map(convert_entries(elements, depth + 1))
            } else {
                match convert_elements(elements, depth + 1) {
                    Ok(values) => if values.len() as u64 > MAX_LENGTH {
                        Err(ConvertError::ArrayTooLarge)
                    } else {
                        let array = ScVal::Vec(Some(values));
                        assert(array.model()->Vec_0->0 =~= scval_models(values@));
                        Ok(array)
                    },
                    Err(error) => Err(error),
                }
            }
        },
        JsonValue::Object(members) => {
            assert(value.model()->Object_0 =~= member_models(members@));
            assert(decreases_to!(*value => value->Object_0));
            if find_member(members, "__truncated__").is_some() {
                return Err(ConvertError::Truncated);
            }
            if let Some(error) = find_marked_error(members) {
                return Ok(ScVal::Error(error));
            }
            if let Some(nonce) = find_marked_nonce(members) {
                return Ok(ScVal::LedgerKeyNonce(nonce));
            }
            if let Some(instance) = parse_contract_instance(members, depth) {
                return Ok(ScVal::ContractInstance(instance));
            }
            build_map(convert_members(members, depth + 1))
        },
    }
}

/// What the elements of an array stand for.
fn convert_elements(elements: &Vec<JsonValue>, depth: usize) -> (values: Result<
    Vec<ScVal>,
    ConvertError,
>)
    ensures
        match values {
            Ok(values) => converted_elements(
                json_models(elements@),
                elements@.len(),
                depth as nat,
            ) == Ok::<Seq<ScValModel>, ConvertErrorModel>(scval_models(values@)),
            Err(error) => converted_elements(json_models(elements@), elements@.len(), depth as nat)
                == Err::<Seq<ScValModel>, ConvertErrorModel>(error@),
        },
    decreases *elements,
{
    let ghost models = json_models(elements@);
    let mut values: Vec<ScVal> = Vec::new();
    let mut i: usize = 0;
    assert(scval_models(values@) =~= Seq::empty());
    while i < elements.len()
        invariant
            i <= elements@.len(),
            models == json_models(elements@),
            converted_elements(models, i as nat, depth as nat) == Ok::<
                Seq<ScValModel>,
                ConvertErrorModel,
            >(scval_models(values@)),
        decreases elements@.len() - i,
    {
        proof {
            assert(decreases_to!(*elements => elements@));
            assert(decreases_to!(elements@ => elements@[i as int]));
        }
        match convert(&elements[i], depth) {
            Ok(value) => {
                let ghost before = values@;
                values.push(value);
                assert(scval_models(values@) =~= scval_models(before).push(value.model()));
            },
            Err(error) => {
                proof {
                    elements_error_decides(models, (i + 1) as nat, models.len(), depth as nat);
                }
                return Err(error);
            },
        }
        i += 1;
    }
    Ok(values)
}

/// The entries that the elements of an array stand for, each with its members `key` and
/// `value`.
fn convert_entries(elements: &Vec<JsonValue>, depth: usize) -> (entries: Result<
    Vec<ScMapEntry>,
    ConvertError,
>)
    requires
        is_entry_list(json_models(elements@)),
    ensures
        entries_result(entries) == converted_entries(
            json_models(elements@),
            elements@.len(),
            depth as nat,
        ),
    decreases *elements,
{
    let ghost models = json_models(elements@);
    let mut entries: Vec<ScMapEntry> = Vec::new();
    let mut i: usize = 0;
    assert(map_entry_models(entries@) =~= Seq::empty());
    while i < elements.len()
        invariant
            i <= elements@.len(),
            models == json_models(elements@),
            is_entry_list(models),
            converted_entries(models, i as nat, depth as nat) == Ok::<
                Seq<(ScValModel, ScValModel)>,
                ConvertErrorModel,
            >(map_entry_models(entries@)),
        decreases elements@.len() - i,
    {
        let element = &elements[i];
        proof {
            assert(is_entry(models[i as int]));
            assert(models[i as int] == element.model());
            assert(decreases_to!(*elements => elements@));
            assert(decreases_to!(elements@ => elements@[i as int]));
        }
        if let JsonValue::Object(members) = element {
            assert(element.model()->Object_0 =~= member_models(members@));
            assert(decreases_to!(*element => element->Object_0));
            let found = (find_member(members, "key"), find_member(members, "value"));
            if let (Some(key), Some(value)) = found {
                proof {
                    let key_at = position(member_models(members@), "key"@);
                    let value_at = position(member_models(members@), "value"@);
                    assert(decreases_to!(element->Object_0 => members@));
                    assert(decreases_to!(members@ => members@[key_at]));
                    assert(decreases_to!(members@[key_at] => members@[key_at].value));
                    assert(decreases_to!(members@ => members@[value_at]));
                    assert(decreases_to!(members@[value_at] => members@[value_at].value));
                    entries_error_decides(models, (i + 1) as nat, models.len(), depth as nat);
                }
                let key = match convert(key, depth) {
                    Ok(key) => key,
                    Err(error) => {
                        return Err(error);
                    },
                };
                let val = match convert(value, depth) {
                    Ok(val) => val,
                    Err(error) => {
                        return Err(error);
                    },
                };
                let ghost before = entries@;
                let entry = ScMapEntry { key, val };
                entries.push(entry);
                assert(map_entry_models(entries@) =~= map_entry_models(before).push(
                    (entry.key.model(), entry.val.model()),
                ));
            }
        }
        i += 1;
    }
    Ok(entries)
}

/// The entries that the members of an object stand for, each key as a text.
fn convert_members(members: &Vec<JsonMember>, depth: usize) -> (entries: Result<
    Vec<ScMapEntry>,
    ConvertError,
>)
    ensures
        entries_result(entries) == converted_members(
            member_models(members@),
            members@.len(),
            depth as nat,
        ),
    decreases *members,
{
    let ghost models = member_models(members@);
    let mut entries: Vec<ScMapEntry> = Vec::new();
    let mut i: usize = 0;
    assert(map_entry_models(entries@) =~= Seq::empty());
    while i < members.len()
        invariant
            i <= members@.len(),
            models == member_models(members@),
            converted_members(models, i as nat, depth as nat) == Ok::<
                Seq<(ScValModel, ScValModel)>,
                ConvertErrorModel,
            >(map_entry_models(entries@)),
        decreases members@.len() - i,
    {
        proof {
            assert(decreases_to!(*members => members@));
            assert(decreases_to!(members@ => members@[i as int]));
            assert(decreases_to!(members@[i as int] => members@[i as int].value));
            members_error_decides(models, (i + 1) as nat, models.len(), depth as nat);
        }
        let key = match convert_string(members[i].key.as_str()) {
            Ok(key) => key,
            Err(error) => {
                return Err(error);
            },
        };
        let val = match convert(&members[i].value, depth) {
            Ok(val) => val,
            Err(error) => {
                return Err(error);
            },
        };
        let ghost before = entries@;
        let entry = ScMapEntry { key, val };
        entries.push(entry);
        assert(map_entry_models(entries@) =~= map_entry_models(before).push(
            (entry.key.model(), entry.val.model()),
        ));
        i += 1;
    }
    Ok(entries)
}

/// The contract instance that an object is marked as.
fn parse_contract_instance(members: &Vec<JsonMember>, depth: usize) -> (instance: Option<
    ScContractInstance,
>)
    requires
        depth <= MAX_SCVAL_DEPTH,
    ensures
        match instance {
            Some(instance) => marked_instance(member_models(members@), depth as nat) == Some(
                ScVal::ContractInstance(instance).model(),
            ),
            None => marked_instance(member_models(members@), depth as nat) is None,
        },
    decreases *members,
{
    let executable = match parse_executable(find_member(members, "executable")) {
        Some(executable) => executable,
        None => {
            return None;
        },
    };
    match find_member(members, "storage") {
        None => None,
        Some(JsonValue::Null) => Some(ScContractInstance { executable, storage: None }),
        Some(storage) => {
            proof {
                let at = position(member_models(members@), "storage"@);
                assert(decreases_to!(*members => members@));
                assert(decreases_to!(members@ => members@[at]));
                assert(decreases_to!(members@[at] => members@[at].value));
            }
            match convert(storage, depth + 1) {
                Ok(ScVal::Mapping(Some(entries))) => {
                    let instance = ScContractInstance { executable, storage: Some(entries) };
                    proof {
                        let map = ScVal::Mapping(Some(entries)).model();
                        assert(map->Mapping_0->0 =~= map_entry_models(entries@));
                        let model = ScVal::ContractInstance(instance).model();
                        assert(model->storage->0 =~= map_entry_models(entries@));
                    }
                    Some(instance)
                },
                _ => None,
            }
        },
    }
}

/// The contract value that a JSON value stands for.
pub fn json_to_scval(value: &JsonValue) -> (result: Result<ScVal, ConvertError>)
    ensures
        convert_result(result) == converted(value.model(), 0),
{
    convert(value, 0)
}

} // verus!
