//! Contract values out of JSON.

use grat_core::decode::json_to_scval::{
    convert, convert_number, convert_string, convert_text, json_to_scval, ConvertError,
};
use grat_core::decode::number::{parse_signed, parse_unsigned};
use grat_core::decode::scval::{
    ContractExecutable, Int128Parts, ScAddress, ScContractInstance, ScError, ScErrorCode,
    ScMapEntry, ScVal, UInt128Parts,
};
use grat_core::json::{find_member, own_json, JsonMember, JsonNumber, JsonValue};

const ACCOUNT: &str = "GA7QYNF7SOWQ3GLR2BGMZEHXAVIRZA4KVWLTJJFC7MGXUA74P7UJVSGZ";
const CONTRACT: &str = "CA3D5KRYM6CB7OWQ6TWYRR3Z4T7GNZLKERYNZGGA5SOAOPIFY6YQGAXE";

fn parse(text: &str) -> JsonValue {
    own_json(serde_json::from_str(text).unwrap())
}

fn value_of(text: &str) -> Result<ScVal, ConvertError> {
    json_to_scval(&parse(text))
}

fn string(text: &str) -> ScVal {
    ScVal::String(text.as_bytes().to_vec())
}

fn entry(key: ScVal, val: ScVal) -> ScMapEntry {
    ScMapEntry { key, val }
}

#[test]
fn test_roundtrip_primitives() {
    let cases = vec![
        ("null", ScVal::Void),
        ("true", ScVal::Bool(true)),
        ("false", ScVal::Bool(false)),
        ("42", ScVal::U32(42)),
        ("-7", ScVal::I32(-7)),
        ("18446744073709551615", ScVal::U64(u64::MAX)),
        ("-9223372036854775808", ScVal::I64(i64::MIN)),
        ("\"hello\"", ScVal::String(b"hello".to_vec())),
        (
            "\"0xdeadbeef\"",
            ScVal::Bytes(vec![0xDE, 0xAD, 0xBE, 0xEF]),
        ),
    ];

    for (json, case) in cases {
        let parsed = value_of(json).expect("should parse");
        assert_eq!(parsed, case, "failed on {:?}", case);
    }
}

#[test]
fn test_lossless_map_roundtrip() {
    // A number and a text that both stand for the JSON key "7".
    let map = ScVal::Mapping(Some(vec![
        entry(ScVal::U32(7), string("from_number")),
        entry(string("7"), string("from_string")),
    ]));
    let json = parse(
        "[{\"key\": 7, \"value\": \"from_number\"}, {\"key\": \"7\", \"value\": \"from_string\"}]",
    );
    assert!(matches!(json, JsonValue::Array(_)));
    let parsed = json_to_scval(&json).unwrap();
    assert_eq!(parsed, map);
}

#[test]
fn integers_take_the_narrowest_form() {
    let cases = vec![
        ("0", ScVal::U32(0)),
        ("4294967295", ScVal::U32(u32::MAX)),
        ("4294967296", ScVal::U64(4294967296)),
        ("9223372036854775807", ScVal::U64(9223372036854775807)),
        ("9223372036854775808", ScVal::U64(9223372036854775808)),
        ("-1", ScVal::I32(-1)),
        ("-2147483648", ScVal::I32(i32::MIN)),
        ("-2147483649", ScVal::I64(-2147483649)),
    ];
    for (json, value) in cases {
        assert_eq!(value_of(json).unwrap(), value);
    }
    assert_eq!(
        convert_number(&JsonNumber::NegInt(-5)).unwrap(),
        ScVal::I32(-5)
    );
}

#[test]
fn numbers_that_are_no_integers_are_refused() {
    let error = value_of("1.5").unwrap_err();
    assert_eq!(error, ConvertError::UnsupportedNumber("1.5".to_string()));
    assert_eq!(
        error.message(),
        "unsupported float or out of bounds number: 1.5"
    );
    assert!(matches!(
        value_of("18446744073709551616").unwrap_err(),
        ConvertError::UnsupportedNumber(_)
    ));
}

#[test]
fn errors_have_messages() {
    let cases = vec![
        (
            ConvertError::DepthExceeded,
            "max recursion depth (100) exceeded",
        ),
        (ConvertError::MapTooLarge, "map too large"),
        (ConvertError::ArrayTooLarge, "array too large"),
        (ConvertError::BytesTooLarge, "bytes too large"),
        (ConvertError::StringTooLong, "string too long"),
        (
            ConvertError::Truncated,
            "cannot convert truncated JSON back to ScVal",
        ),
    ];
    for (error, message) in cases {
        assert_eq!(error.message(), message);
    }
}

#[test]
fn texts_with_a_meaning_of_their_own() {
    assert_eq!(
        convert_string("LedgerKeyContractInstance").unwrap(),
        ScVal::LedgerKeyContractInstance
    );
    assert_eq!(convert_string("0x").unwrap(), ScVal::Bytes(Vec::new()));
    assert_eq!(
        convert_string("0xAb0f").unwrap(),
        ScVal::Bytes(vec![0xab, 0x0f])
    );
    assert_eq!(convert_string("0xabc").unwrap(), string("0xabc"));
    assert_eq!(convert_string("0xzz").unwrap(), string("0xzz"));
    assert_eq!(convert_string("0Xab").unwrap(), string("0Xab"));
    assert_eq!(convert_string("").unwrap(), string(""));
    assert_eq!(convert_string("é").unwrap(), ScVal::String(vec![0xc3, 0xa9]));
}

#[test]
fn addresses_are_decoded() {
    let account = stellar_strkey::ed25519::PublicKey::from_string(ACCOUNT).unwrap();
    assert_eq!(
        convert_string(ACCOUNT).unwrap(),
        ScVal::Address(ScAddress::Account(account.0))
    );
    let contract = stellar_strkey::Contract::from_string(CONTRACT).unwrap();
    assert_eq!(
        convert_string(CONTRACT).unwrap(),
        ScVal::Address(ScAddress::Contract(contract.0))
    );
    // With a character changed, the checksum does not fit.
    let broken = ACCOUNT.replace("GA7Q", "GA7R");
    assert_eq!(convert_string(&broken).unwrap(), string(&broken));
}

#[test]
fn addresses_have_their_letter_and_their_length() {
    let key = Some([7; 32]);
    assert_eq!(
        convert_text(ACCOUNT, key, None).unwrap(),
        ScVal::Address(ScAddress::Account([7; 32]))
    );
    assert_eq!(
        convert_text(CONTRACT, key, Some([9; 32])).unwrap(),
        ScVal::Address(ScAddress::Contract([9; 32]))
    );
    assert_eq!(convert_text(ACCOUNT, None, key).unwrap(), string(ACCOUNT));
    assert_eq!(convert_text("GABC", key, key).unwrap(), string("GABC"));
}

#[test]
fn large_integers_in_text_are_split_in_halves() {
    let cases = vec![
        // 2^64
        ("18446744073709551616", ScVal::U128(UInt128Parts { hi: 1, lo: 0 })),
        (
            "+18446744073709551617",
            ScVal::U128(UInt128Parts { hi: 1, lo: 1 }),
        ),
        (
            "340282366920938463463374607431768211455",
            ScVal::U128(UInt128Parts {
                hi: u64::MAX,
                lo: u64::MAX,
            }),
        ),
        // Between the largest of 63 bits and the largest of 64 bits.
        (
            "9223372036854775808",
            ScVal::I128(Int128Parts {
                hi: 0,
                lo: 9223372036854775808,
            }),
        ),
        (
            "18446744073709551615",
            ScVal::I128(Int128Parts {
                hi: 0,
                lo: u64::MAX,
            }),
        ),
        (
            "-9223372036854775809",
            ScVal::I128(Int128Parts {
                hi: -1,
                lo: 9223372036854775807,
            }),
        ),
        (
            "-18446744073709551616",
            ScVal::I128(Int128Parts { hi: -1, lo: 0 }),
        ),
        (
            "-170141183460469231731687303715884105728",
            ScVal::I128(Int128Parts {
                hi: i64::MIN,
                lo: 0,
            }),
        ),
    ];
    for (text, value) in cases {
        assert_eq!(convert_string(text).unwrap(), value, "{}", text);
    }
    for text in [
        "12",
        "-12",
        "9223372036854775807",
        "-9223372036854775808",
        "340282366920938463463374607431768211456",
        "-170141183460469231731687303715884105729",
        "+",
        "-",
        "1_000_000_000_000_000_000_000",
        " 18446744073709551616",
        "٣18446744073709551616",
    ] {
        assert_eq!(convert_string(text).unwrap(), string(text), "{}", text);
    }
}

#[test]
fn integers_are_parsed_as_the_standard_library_does() {
    let max = "340282366920938463463374607431768211455";
    for text in [
        "", "+", "-", "0", "-0", "+0", "007", "-1", "1a", " 1", "é", "1é", max,
        "340282366920938463463374607431768211456",
        "170141183460469231731687303715884105727",
        "170141183460469231731687303715884105728",
        "-170141183460469231731687303715884105728",
        "-170141183460469231731687303715884105729",
        "99999999999999999999999999999999999999999999",
        "+-1", "--1",
    ] {
        assert_eq!(parse_unsigned(text), text.parse::<u128>().ok(), "{}", text);
        assert_eq!(parse_signed(text), text.parse::<i128>().ok(), "{}", text);
    }
}

#[test]
fn arrays_become_vectors() {
    assert_eq!(value_of("[]").unwrap(), ScVal::Vec(Some(Vec::new())));
    assert_eq!(
        value_of("[1, [true], null]").unwrap(),
        ScVal::Vec(Some(vec![
            ScVal::U32(1),
            ScVal::Vec(Some(vec![ScVal::Bool(true)])),
            ScVal::Void,
        ]))
    );
    // One element that is no entry makes the array a plain one.
    assert_eq!(
        value_of("[{\"key\": 1, \"value\": 2}, 3]").unwrap(),
        ScVal::Vec(Some(vec![
            ScVal::Mapping(Some(vec![
                entry(string("key"), ScVal::U32(1)),
                entry(string("value"), ScVal::U32(2)),
            ])),
            ScVal::U32(3),
        ]))
    );
}

#[test]
fn objects_become_maps_with_texts_as_keys() {
    assert_eq!(value_of("{}").unwrap(), ScVal::Mapping(Some(Vec::new())));
    assert_eq!(
        value_of("{\"b\": 1, \"a\": {\"0x01\": -1}}").unwrap(),
        ScVal::Mapping(Some(vec![
            entry(
                string("a"),
                ScVal::Mapping(Some(vec![entry(ScVal::Bytes(vec![1]), ScVal::I32(-1))]))
            ),
            entry(string("b"), ScVal::U32(1)),
        ]))
    );
}

#[test]
fn truncated_json_is_refused() {
    assert_eq!(
        value_of("{\"a\": 1, \"__truncated__\": true}").unwrap_err(),
        ConvertError::Truncated
    );
    assert_eq!(
        value_of("[{\"key\": {\"__truncated__\": null}, \"value\": 1.5}]").unwrap_err(),
        ConvertError::Truncated
    );
}

#[test]
fn first_failure_decides() {
    assert_eq!(
        value_of("[1, 2.5, {\"__truncated__\": 1}]").unwrap_err(),
        ConvertError::UnsupportedNumber("2.5".to_string())
    );
    assert_eq!(
        value_of("{\"a\": {\"__truncated__\": 1}, \"b\": 2.5}").unwrap_err(),
        ConvertError::Truncated
    );
}

#[test]
fn error_markers() {
    let cases = vec![
        (
            "{\"type\": \"Contract\", \"code\": 7}",
            ScError::Contract(7),
        ),
        (
            "{\"type\": \"Contract\", \"code\": 4294967297}",
            ScError::Contract(1),
        ),
        (
            "{\"type\": \"WasmVm\", \"code\": \"InvalidAction\"}",
            ScError::WasmVm(ScErrorCode::InvalidAction),
        ),
        (
            "{\"type\": \"Context\", \"code\": \"UnexpectedType\"}",
            ScError::Context(ScErrorCode::UnexpectedType),
        ),
        (
            "{\"type\": \"Storage\", \"code\": \"MissingValue\"}",
            ScError::Storage(ScErrorCode::MissingValue),
        ),
        (
            "{\"type\": \"Object\", \"code\": \"UnexpectedSize\"}",
            ScError::Object(ScErrorCode::UnexpectedSize),
        ),
        (
            "{\"type\": \"Crypto\", \"code\": \"InvalidInput\"}",
            ScError::Crypto(ScErrorCode::InvalidInput),
        ),
        (
            "{\"type\": \"Events\", \"code\": \"InternalError\"}",
            ScError::Events(ScErrorCode::InternalError),
        ),
        (
            "{\"type\": \"Budget\", \"code\": \"ExceededLimit\"}",
            ScError::Budget(ScErrorCode::ExceededLimit),
        ),
        (
            "{\"type\": \"Value\", \"code\": \"InvalidInput\"}",
            ScError::Value(ScErrorCode::InvalidInput),
        ),
        (
            "{\"type\": \"Auth\", \"code\": \"InvalidAction\"}",
            ScError::Auth(ScErrorCode::InvalidAction),
        ),
    ];
    for (json, error) in cases {
        assert_eq!(value_of(json).unwrap(), ScVal::Error(error));
    }
    for json in [
        "{\"type\": \"Contract\", \"code\": \"7\"}",
        "{\"type\": \"Contract\", \"code\": -7}",
        "{\"type\": \"Budget\", \"code\": \"Strange\"}",
        "{\"type\": \"Strange\", \"code\": \"InvalidInput\"}",
        "{\"type\": 1, \"code\": 2}",
        "{\"type\": \"Contract\", \"code\": 7, \"more\": 1}",
    ] {
        assert!(
            matches!(value_of(json).unwrap(), ScVal::Mapping(Some(_))),
            "{}",
            json
        );
    }
}

#[test]
fn nonce_markers() {
    assert_eq!(
        value_of("{\"nonce\": -3}").unwrap(),
        ScVal::LedgerKeyNonce(-3)
    );
    assert_eq!(
        value_of("{\"nonce\": 9223372036854775807}").unwrap(),
        ScVal::LedgerKeyNonce(i64::MAX)
    );
    assert_eq!(
        value_of("{\"nonce\": 9223372036854775808}").unwrap(),
        ScVal::Mapping(Some(vec![entry(
            string("nonce"),
            ScVal::U64(9223372036854775808)
        )]))
    );
    assert!(matches!(
        value_of("{\"nonce\": 1, \"x\": 2}").unwrap(),
        ScVal::Mapping(Some(_))
    ));
}

#[test]
fn contract_instances() {
    assert_eq!(
        value_of("{\"executable\": {\"type\": \"StellarAsset\"}, \"storage\": null}").unwrap(),
        ScVal::ContractInstance(ScContractInstance {
            executable: ContractExecutable::StellarAsset,
            storage: None,
        })
    );
    let hash = "0b".repeat(32);
    for prefix in ["", "0x"] {
        let json = format!(
            "{{\"executable\": {{\"type\": \"Wasm\", \"wasmHash\": \"{prefix}{hash}\"}}, \
             \"storage\": {{\"a\": 1}}}}"
        );
        assert_eq!(
            value_of(&json).unwrap(),
            ScVal::ContractInstance(ScContractInstance {
                executable: ContractExecutable::Wasm([11; 32]),
                storage: Some(vec![entry(string("a"), ScVal::U32(1))]),
            })
        );
    }
    for json in [
        "{\"executable\": {\"type\": \"Wasm\", \"wasmHash\": \"0x0b\"}, \"storage\": null}",
        "{\"executable\": {\"type\": \"Wasm\"}, \"storage\": null}",
        "{\"executable\": {\"type\": \"Other\"}, \"storage\": null}",
        "{\"executable\": 1, \"storage\": null}",
        "{\"executable\": {\"type\": \"StellarAsset\"}, \"storage\": [1]}",
    ] {
        assert!(
            matches!(value_of(json).unwrap(), ScVal::Mapping(Some(_))),
            "{}",
            json
        );
    }
}

fn nested(levels: usize) -> JsonValue {
    let mut value = JsonValue::Null;
    for _ in 0..levels {
        value = JsonValue::Array(vec![value]);
    }
    value
}

#[test]
fn nesting_is_limited() {
    assert!(json_to_scval(&nested(100)).is_ok());
    assert_eq!(
        json_to_scval(&nested(101)).unwrap_err(),
        ConvertError::DepthExceeded
    );
    assert!(convert(&nested(0), 100).is_ok());
    assert_eq!(
        convert(&nested(0), 101).unwrap_err(),
        ConvertError::DepthExceeded
    );
}

#[test]
fn json_is_taken_over_level_by_level() {
    let value = parse("{\"b\": [null, true, \"x\", 1, -1, 1.5], \"a\": {}}");
    let expected = JsonValue::Object(vec![
        JsonMember {
            key: "a".to_string(),
            value: JsonValue::Object(Vec::new()),
        },
        JsonMember {
            key: "b".to_string(),
            value: JsonValue::Array(vec![
                JsonValue::Null,
                JsonValue::Bool(true),
                JsonValue::String("x".to_string()),
                JsonValue::Number(JsonNumber::PosInt(1)),
                JsonValue::Number(JsonNumber::NegInt(-1)),
                JsonValue::Number(JsonNumber::Float("1.5".to_string())),
            ]),
        },
    ]);
    assert_eq!(value, expected);
    assert_eq!(value.clone(), expected);
    assert!(value.get("b").is_some());
    assert!(value.get("c").is_none());
    assert!(JsonValue::Null.get("a").is_none());
    assert_eq!(JsonValue::String("t".to_string()).as_str(), Some("t"));
    assert_eq!(JsonValue::Bool(true).as_str(), None);
}

#[test]
fn the_first_member_of_a_name_is_found() {
    let member = |key: &str, value: bool| JsonMember {
        key: key.to_string(),
        value: JsonValue::Bool(value),
    };
    let members = vec![member("b", false), member("a", true), member("a", false)];
    assert_eq!(find_member(&members, "a"), Some(&JsonValue::Bool(true)));
    assert_eq!(find_member(&members, "b"), Some(&JsonValue::Bool(false)));
    assert_eq!(find_member(&members, "c"), None);
}
