//! Contract specifications out of WebAssembly.

use grat_core::contract_spec::decoder::{
    build_contract_spec, decode_contract_spec, decode_structs, format_type_def,
    resolve_error_code,
    select_structs, ContractErrorEntry, ContractSpec, SpecParser,
};
use grat_core::contract_spec::types::{
    SpecEntry, SpecEnum, SpecEnumCase, SpecFunction, SpecMember, SpecStruct, SpecType, SpecUnion,
    SpecUnionCase,
};
use grat_core::contract_spec::wasm::{find_section, WasmPayload};
use grat_core::contract_spec::xdr::read_entries;
use grat_core::error::GratError;
use stellar_xdr::curr::{
    Limits, ScSpecEntry, ScSpecFunctionInputV0, ScSpecFunctionV0, ScSpecTypeBytesN, ScSpecTypeDef,
    ScSpecTypeMap, ScSpecTypeOption, ScSpecTypeResult, ScSpecTypeTuple, ScSpecTypeUdt,
    ScSpecTypeVec, ScSpecUdtEnumCaseV0, ScSpecUdtEnumV0, ScSpecUdtErrorEnumCaseV0,
    ScSpecUdtErrorEnumV0, ScSpecUdtStructFieldV0, ScSpecUdtStructV0, ScSpecUdtUnionCaseTupleV0,
    ScSpecUdtUnionCaseV0, ScSpecUdtUnionCaseVoidV0, ScSpecUdtUnionV0, WriteXdr,
};

const EMPTY_MODULE: [u8; 8] = [0x00, 0x61, 0x73, 0x6D, 0x01, 0x00, 0x00, 0x00];

fn build_wasm_with_custom_section(section_name: &str, section_data: &[u8]) -> Vec<u8> {
    let mut wasm = EMPTY_MODULE.to_vec();
    let mut custom_payload = Vec::new();
    custom_payload.push(section_name.len() as u8);
    custom_payload.extend_from_slice(section_name.as_bytes());
    custom_payload.extend_from_slice(section_data);
    wasm.push(0);
    let mut size = custom_payload.len();
    while size >= 0x80 {
        wasm.push((size % 0x80) as u8 + 0x80);
        size /= 0x80;
    }
    wasm.push(size as u8);
    wasm.extend(custom_payload);
    wasm
}

fn make_struct_spec_entry(
    name: &str,
    doc: &str,
    fields: Vec<(&str, &str, ScSpecTypeDef)>,
) -> ScSpecEntry {
    let struct_fields: Vec<ScSpecUdtStructFieldV0> = fields
        .into_iter()
        .map(|(fname, fdoc, ftype)| ScSpecUdtStructFieldV0 {
            doc: fdoc.try_into().unwrap(),
            name: fname.try_into().unwrap(),
            type_: ftype,
        })
        .collect();

    ScSpecEntry::UdtStructV0(ScSpecUdtStructV0 {
        doc: doc.try_into().unwrap(),
        lib: "".try_into().unwrap(),
        name: name.try_into().unwrap(),
        fields: struct_fields.try_into().unwrap(),
    })
}

fn encode_entries(entries: Vec<ScSpecEntry>) -> Vec<u8> {
    let mut section_data = Vec::new();
    for entry in entries {
        let bytes = entry.to_xdr(Limits::none()).unwrap();
        section_data.extend_from_slice(&bytes);
    }
    section_data
}

fn make_wasm_with_structs(structs: Vec<ScSpecEntry>) -> Vec<u8> {
    build_wasm_with_custom_section("contractspecv0", &encode_entries(structs))
}

fn error_enum() -> ScSpecEntry {
    ScSpecEntry::UdtErrorEnumV0(ScSpecUdtErrorEnumV0 {
        doc: "Errors of the vault".try_into().unwrap(),
        lib: "".try_into().unwrap(),
        name: "VaultError".try_into().unwrap(),
        cases: vec![
            ScSpecUdtErrorEnumCaseV0 {
                doc: "".try_into().unwrap(),
                name: "Empty".try_into().unwrap(),
                value: 1,
            },
            ScSpecUdtErrorEnumCaseV0 {
                doc: "Locked until the deadline".try_into().unwrap(),
                name: "Locked".try_into().unwrap(),
                value: 7,
            },
        ]
        .try_into()
        .unwrap(),
    })
}

#[test]
fn test_resolve_error_code_not_found() {
    let spec = ContractSpec {
        errors: vec![ContractErrorEntry {
            code: 1,
            name: "NotFound".to_string(),
            doc: None,
        }],
        functions: Vec::new(),
        structs: Vec::new(),
        enums: Vec::new(),
        unions: Vec::new(),
        name: None,
        version: None,
    };
    assert!(resolve_error_code(&spec, 99).is_none());
    assert!(resolve_error_code(&spec, 1).is_some());
}

#[test]
fn resolve_returns_the_first_of_two_with_one_code() {
    let entry = |name: &str| ContractErrorEntry {
        code: 4,
        name: name.to_string(),
        doc: None,
    };
    let spec = ContractSpec {
        errors: vec![entry("First"), entry("Second")],
        functions: Vec::new(),
        structs: Vec::new(),
        enums: Vec::new(),
        unions: Vec::new(),
        name: None,
        version: None,
    };
    assert_eq!(resolve_error_code(&spec, 4).unwrap().name, "First");
}

#[test]
fn test_extract_spec_success() {
    let section_data = vec![1, 2, 3, 4];
    let wasm = build_wasm_with_custom_section("contractspecv0", &section_data);
    let result = SpecParser::extract_spec(&wasm).expect("Should find section");
    assert_eq!(result, section_data);
}

#[test]
fn test_extract_spec_not_found() {
    let wasm = vec![0x00, 0x61, 0x73, 0x6D, 0x01, 0x00, 0x00, 0x00];
    let result = SpecParser::extract_spec(&wasm);
    assert!(result.is_err());
    match result {
        Err(GratError::SpecError(msg)) => assert!(msg.contains("not found")),
        _ => panic!("Expected SpecError"),
    }
}

#[test]
fn test_extract_raw_section_custom_name() {
    let section_data = vec![10, 20, 30];
    let wasm = build_wasm_with_custom_section("contractenvmetav0", &section_data);
    let result =
        SpecParser::extract_raw_section(&wasm, "contractenvmetav0").expect("Should find section");
    assert_eq!(result, section_data);
}

#[test]
fn test_extract_raw_section_not_found() {
    let wasm = vec![0x00, 0x61, 0x73, 0x6D, 0x01, 0x00, 0x00, 0x00];
    let result = SpecParser::extract_raw_section(&wasm, "nonexistent");
    assert!(result.is_err());
    match result {
        Err(GratError::SpecError(msg)) => assert!(msg.contains("nonexistent")),
        _ => panic!("Expected SpecError"),
    }
}

#[test]
fn missing_section_has_the_whole_message() {
    let error = SpecParser::extract_raw_section(&EMPTY_MODULE, "meta").unwrap_err();
    assert_eq!(
        error,
        GratError::SpecError("meta custom section not found".to_string())
    );
}

#[test]
fn bytes_that_are_no_module_have_no_section() {
    assert!(SpecParser::extract_spec(&[1, 2, 3]).is_err());
    assert!(SpecParser::extract_spec(&[]).is_err());
}

#[test]
fn first_section_of_the_name_is_found() {
    let custom = |name: &str, data: &[u8]| WasmPayload::Custom {
        name: name.to_string(),
        data: data.to_vec(),
    };
    let payloads = vec![
        WasmPayload::Other,
        WasmPayload::Malformed,
        custom("b", &[9]),
        custom("a", &[1, 2]),
        custom("a", &[3]),
    ];
    assert_eq!(find_section(payloads, "a"), Some(vec![1, 2]));
    assert_eq!(find_section(vec![custom("A", &[1])], "a"), None);
    assert_eq!(find_section(Vec::new(), "a"), None);
}

#[test]
fn test_extract_structs_returns_empty_on_missing_section() {
    let wasm = vec![0x00, 0x61, 0x73, 0x6D, 0x01, 0x00, 0x00, 0x00];
    let result = SpecParser::extract_structs(&wasm).expect("Should not error");
    assert!(result.is_empty());
}

#[test]
fn test_extract_structs_handles_empty_section() {
    let wasm = build_wasm_with_custom_section("contractspecv0", &[]);
    let result = SpecParser::extract_structs(&wasm).expect("Should not error on empty");
    assert!(result.is_empty());
}

#[test]
fn test_extract_structs_gracefully_handles_malformed_xdr() {
    let wasm = build_wasm_with_custom_section("contractspecv0", &[0xFF, 0xFE, 0xFD, 0xFC]);
    let result = SpecParser::extract_structs(&wasm).expect("Should handle malformed XDR");
    assert!(result.is_empty());
}

#[test]
fn test_extract_structs_parses_single_struct() {
    let entry = make_struct_spec_entry(
        "Balance",
        "A user balance",
        vec![
            ("amount", "The amount", ScSpecTypeDef::I128),
            ("asset", "The asset code", ScSpecTypeDef::Symbol),
        ],
    );
    let wasm = make_wasm_with_structs(vec![entry]);
    let result = SpecParser::extract_structs(&wasm).expect("Should parse struct");
    assert_eq!(result.len(), 1);
    assert_eq!(result[0].name, "Balance");
    assert_eq!(result[0].doc.as_deref(), Some("A user balance"));
    assert_eq!(result[0].fields.len(), 2);
    assert_eq!(result[0].fields[0].name, "amount");
    assert_eq!(result[0].fields[0].type_label, "I128");
    assert_eq!(result[0].fields[1].name, "asset");
    assert_eq!(result[0].fields[1].type_label, "Symbol");
}

#[test]
fn test_extract_structs_skips_non_struct_entries() {
    let entry = ScSpecEntry::FunctionV0(ScSpecFunctionV0 {
        name: "hello".try_into().unwrap(),
        doc: "".try_into().unwrap(),
        inputs: vec![].try_into().unwrap(),
        outputs: vec![].try_into().unwrap(),
    });
    let wasm = make_wasm_with_structs(vec![entry]);
    let result = SpecParser::extract_structs(&wasm).expect("Should skip non-struct");
    assert!(result.is_empty());
}

#[test]
fn test_extract_raw_structs_returns_sc_spec_udt_struct_v0() {
    let entry = make_struct_spec_entry("Voter", "", vec![("name", "", ScSpecTypeDef::String)]);
    let wasm = make_wasm_with_structs(vec![entry]);
    let result = SpecParser::extract_raw_structs(&wasm).expect("Should extract raw structs");
    assert_eq!(result.len(), 1);
    assert_eq!(result[0].name.to_string(), "Voter");
}

#[test]
fn test_extract_raw_structs_returns_empty_on_missing_section() {
    let wasm = vec![0x00, 0x61, 0x73, 0x6D, 0x01, 0x00, 0x00, 0x00];
    let result = SpecParser::extract_raw_structs(&wasm).expect("Should not error");
    assert!(result.is_empty());
}

#[test]
fn test_decode_contract_spec_includes_structs() {
    let struct_entry = make_struct_spec_entry(
        "Config",
        "Contract configuration",
        vec![("admin", "", ScSpecTypeDef::Address)],
    );
    let wasm = make_wasm_with_structs(vec![struct_entry]);
    let spec = decode_contract_spec(&wasm).expect("Should decode spec");
    assert_eq!(spec.structs.len(), 1);
    assert_eq!(spec.structs[0].name, "Config");
}

#[test]
fn test_decode_contract_spec_returns_empty_on_missing_section() {
    let wasm = vec![0x00, 0x61, 0x73, 0x6D, 0x01, 0x00, 0x00, 0x00];
    let spec = decode_contract_spec(&wasm).expect("Should not error");
    assert!(spec.structs.is_empty());
    assert!(spec.functions.is_empty());
    assert!(spec.errors.is_empty());
}

#[test]
fn test_decode_contract_spec_handles_malformed_xdr_gracefully() {
    let wasm = build_wasm_with_custom_section("contractspecv0", &[0xFF; 32]);
    let spec = decode_contract_spec(&wasm).expect("Should handle malformed XDR");
    assert!(spec.structs.is_empty());
}

#[test]
fn entries_before_a_malformed_place_are_decoded() {
    let mut section = encode_entries(vec![
        error_enum(),
        make_struct_spec_entry("Kept", "", vec![]),
    ]);
    section.extend_from_slice(&[0xFF; 8]);
    section.extend(encode_entries(vec![make_struct_spec_entry(
        "Lost",
        "",
        vec![],
    )]));
    let wasm = build_wasm_with_custom_section("contractspecv0", &section);
    let spec = decode_contract_spec(&wasm).unwrap();
    assert_eq!(spec.errors.len(), 2);
    assert_eq!(spec.structs.len(), 1);
    assert_eq!(spec.structs[0].name, "Kept");
}

#[test]
fn error_cases_are_named_after_their_enum_and_share_its_documentation() {
    let wasm = make_wasm_with_structs(vec![error_enum()]);
    let spec = decode_contract_spec(&wasm).unwrap();
    assert_eq!(
        spec.errors,
        vec![
            ContractErrorEntry {
                code: 1,
                name: "VaultError::Empty".to_string(),
                doc: Some("Errors of the vault".to_string()),
            },
            ContractErrorEntry {
                code: 7,
                name: "VaultError::Locked".to_string(),
                doc: Some("Locked until the deadline".to_string()),
            },
        ]
    );
    assert_eq!(
        resolve_error_code(&spec, 7).unwrap().name,
        "VaultError::Locked"
    );
    assert!(resolve_error_code(&spec, 2).is_none());
}

#[test]
fn every_type_is_read_and_written_out() {
    let tuple = ScSpecTypeDef::Tuple(Box::new(ScSpecTypeTuple {
        value_types: vec![ScSpecTypeDef::U32, ScSpecTypeDef::Bool, ScSpecTypeDef::Val]
            .try_into()
            .unwrap(),
    }));
    let nothing = ScSpecTypeDef::Tuple(Box::new(ScSpecTypeTuple {
        value_types: vec![].try_into().unwrap(),
    }));
    let map = ScSpecTypeDef::Map(Box::new(ScSpecTypeMap {
        key_type: Box::new(ScSpecTypeDef::Symbol),
        value_type: Box::new(ScSpecTypeDef::Vec(Box::new(ScSpecTypeVec {
            element_type: Box::new(ScSpecTypeDef::I128),
        }))),
    }));
    let result = ScSpecTypeDef::Result(Box::new(ScSpecTypeResult {
        ok_type: Box::new(ScSpecTypeDef::Option(Box::new(ScSpecTypeOption {
            value_type: Box::new(ScSpecTypeDef::Address),
        }))),
        error_type: Box::new(ScSpecTypeDef::Error),
    }));
    let udt = ScSpecTypeDef::Udt(ScSpecTypeUdt {
        name: "Balance".try_into().unwrap(),
    });
    let bytes = ScSpecTypeDef::BytesN(ScSpecTypeBytesN { n: 4294967295 });
    let cases = vec![
        (ScSpecTypeDef::Val, "Val"),
        (ScSpecTypeDef::Bool, "Bool"),
        (ScSpecTypeDef::Void, "Void"),
        (ScSpecTypeDef::Error, "Error"),
        (ScSpecTypeDef::U32, "U32"),
        (ScSpecTypeDef::I32, "I32"),
        (ScSpecTypeDef::U64, "U64"),
        (ScSpecTypeDef::I64, "I64"),
        (ScSpecTypeDef::Timepoint, "Timepoint"),
        (ScSpecTypeDef::Duration, "Duration"),
        (ScSpecTypeDef::U128, "U128"),
        (ScSpecTypeDef::I128, "I128"),
        (ScSpecTypeDef::U256, "U256"),
        (ScSpecTypeDef::I256, "I256"),
        (ScSpecTypeDef::Bytes, "Bytes"),
        (ScSpecTypeDef::String, "String"),
        (ScSpecTypeDef::Symbol, "Symbol"),
        (ScSpecTypeDef::Address, "Address"),
        (tuple, "(U32, Bool, Val)"),
        (nothing, "()"),
        (map, "Map<Symbol, Vec<I128>>"),
        (result, "Result<Option<Address>, Error>"),
        (udt, "Balance"),
        (bytes, "BytesN<4294967295>"),
    ];
    for (definition, text) in cases {
        let entry = make_struct_spec_entry("S", "", vec![("f", "", definition)]);
        let structs = SpecParser::extract_structs(&make_wasm_with_structs(vec![entry])).unwrap();
        assert_eq!(structs[0].fields[0].type_label, text);
        let own = structs[0].fields[0].type_def.as_ref().unwrap();
        assert_eq!(format_type_def(own), text);
    }
}

#[test]
fn functions_keep_parameters_and_return_type() {
    let function = |name: &str, outputs: Vec<ScSpecTypeDef>| {
        ScSpecEntry::FunctionV0(ScSpecFunctionV0 {
            name: name.try_into().unwrap(),
            doc: "Moves funds".try_into().unwrap(),
            inputs: vec![
                ScSpecFunctionInputV0 {
                    doc: "".try_into().unwrap(),
                    name: "to".try_into().unwrap(),
                    type_: ScSpecTypeDef::Address,
                },
                ScSpecFunctionInputV0 {
                    doc: "".try_into().unwrap(),
                    name: "amount".try_into().unwrap(),
                    type_: ScSpecTypeDef::I128,
                },
            ]
            .try_into()
            .unwrap(),
            outputs: outputs.try_into().unwrap(),
        })
    };
    let wasm = make_wasm_with_structs(vec![
        function("transfer", vec![]),
        function("quote", vec![ScSpecTypeDef::U64]),
    ]);
    let spec = decode_contract_spec(&wasm).unwrap();
    assert_eq!(spec.functions.len(), 2);
    let transfer = &spec.functions[0];
    assert_eq!(transfer.name, "transfer");
    assert_eq!(transfer.doc.as_deref(), Some("Moves funds"));
    assert_eq!(
        transfer.params,
        vec![
            ("to".to_string(), "Address".to_string()),
            ("amount".to_string(), "I128".to_string()),
        ]
    );
    assert_eq!(
        transfer.param_defs,
        vec![
            ("to".to_string(), SpecType::Address),
            ("amount".to_string(), SpecType::I128),
        ]
    );
    assert_eq!(transfer.return_type, "Void");
    assert_eq!(transfer.return_type_def, Some(SpecType::Void));
    let quote = &spec.functions[1];
    assert_eq!(quote.return_type, "U64");
    assert_eq!(quote.return_type_def, Some(SpecType::U64));
    assert_eq!(spec.name, None);
    assert_eq!(spec.version, None);
}

#[test]
fn enums_and_unions_are_decoded() {
    let enumeration = ScSpecEntry::UdtEnumV0(ScSpecUdtEnumV0 {
        doc: "".try_into().unwrap(),
        lib: "".try_into().unwrap(),
        name: "Color".try_into().unwrap(),
        cases: vec![ScSpecUdtEnumCaseV0 {
            doc: "Like grass".try_into().unwrap(),
            name: "Green".try_into().unwrap(),
            value: 3,
        }]
        .try_into()
        .unwrap(),
    });
    let union = ScSpecEntry::UdtUnionV0(ScSpecUdtUnionV0 {
        doc: "Where data stands".try_into().unwrap(),
        lib: "".try_into().unwrap(),
        name: "DataKey".try_into().unwrap(),
        cases: vec![
            ScSpecUdtUnionCaseV0::VoidV0(ScSpecUdtUnionCaseVoidV0 {
                doc: "".try_into().unwrap(),
                name: "Admin".try_into().unwrap(),
            }),
            ScSpecUdtUnionCaseV0::TupleV0(ScSpecUdtUnionCaseTupleV0 {
                doc: "By owner".try_into().unwrap(),
                name: "Balance".try_into().unwrap(),
                type_: vec![ScSpecTypeDef::Address, ScSpecTypeDef::U32]
                    .try_into()
                    .unwrap(),
            }),
        ]
        .try_into()
        .unwrap(),
    });
    let wasm = make_wasm_with_structs(vec![enumeration, union]);
    let spec = decode_contract_spec(&wasm).unwrap();
    assert_eq!(spec.enums[0].name, "Color");
    assert_eq!(spec.enums[0].doc, None);
    assert_eq!(spec.enums[0].cases[0].name, "Green");
    assert_eq!(spec.enums[0].cases[0].value, 3);
    assert_eq!(spec.enums[0].cases[0].doc.as_deref(), Some("Like grass"));
    assert_eq!(spec.unions[0].doc.as_deref(), Some("Where data stands"));
    assert_eq!(spec.unions[0].cases[0].name, "Admin");
    assert_eq!(spec.unions[0].cases[0].value_types, None);
    assert_eq!(spec.unions[0].cases[1].doc.as_deref(), Some("By owner"));
    assert_eq!(
        spec.unions[0].cases[1].value_types,
        Some(vec![SpecType::Address, SpecType::U32])
    );
    assert_eq!(spec.unions[0].cases[1].fields, None);
}

fn plain_struct(name: &str) -> SpecEntry {
    SpecEntry::Struct(SpecStruct {
        doc: String::new(),
        lib: String::new(),
        name: name.to_string(),
        fields: vec![SpecMember {
            doc: String::new(),
            name: "x".to_string(),
            type_: SpecType::Vec(Box::new(SpecType::U32)),
        }],
    })
}

fn plain_error(code: u32) -> SpecEntry {
    SpecEntry::ErrorEnum(SpecEnum {
        doc: String::new(),
        lib: String::new(),
        name: "E".to_string(),
        cases: vec![SpecEnumCase {
            doc: String::new(),
            name: "A".to_string(),
            value: code,
        }],
    })
}

#[test]
fn two_runs_of_entries_say_together_what_they_say_apart() {
    let first = build_contract_spec(vec![plain_error(1), plain_struct("A")]);
    let second = build_contract_spec(vec![plain_struct("B"), plain_error(2)]);
    let together = build_contract_spec(vec![
        plain_error(1),
        plain_struct("A"),
        plain_struct("B"),
        plain_error(2),
    ]);
    let mut errors = first.errors;
    errors.extend(second.errors);
    let mut structs = first.structs;
    structs.extend(second.structs);
    assert_eq!(together.errors, errors);
    assert_eq!(together.structs, structs);
    assert_eq!(together.errors[1].doc, None);
}

#[test]
fn extracted_structs_are_those_of_the_decoded_specification() {
    let wasm = make_wasm_with_structs(vec![
        make_struct_spec_entry("A", "first", vec![("x", "", ScSpecTypeDef::U32)]),
        error_enum(),
        make_struct_spec_entry("B", "", vec![]),
    ]);
    let spec = decode_contract_spec(&wasm).unwrap();
    assert_eq!(SpecParser::extract_structs(&wasm).unwrap(), spec.structs);
    let raw = SpecParser::extract_raw_structs(&wasm).unwrap();
    assert_eq!(raw.len(), 2);
    assert_eq!(raw[0].doc, "first");
    assert_eq!(raw[0].fields[0].type_, SpecType::U32);
    assert_eq!(raw[1].name, "B");
}

#[test]
fn selection_keeps_structs_in_order() {
    let function = SpecEntry::Function(SpecFunction {
        doc: String::new(),
        name: "f".to_string(),
        inputs: Vec::new(),
        outputs: Vec::new(),
    });
    let union = SpecEntry::Union(SpecUnion {
        doc: String::new(),
        lib: String::new(),
        name: "u".to_string(),
        cases: vec![SpecUnionCase::Void {
            doc: String::new(),
            name: "v".to_string(),
        }],
    });
    let structs = select_structs(vec![
        plain_struct("B"),
        function,
        union,
        plain_error(1),
        plain_struct("A"),
    ]);
    assert_eq!(structs.len(), 2);
    assert_eq!(structs[0].name, "B");
    assert_eq!(structs[1].name, "A");
    let decoded = decode_structs(structs);
    assert_eq!(decoded[0].name, "B");
    assert_eq!(decoded[1].fields[0].type_label, "Vec<U32>");
}

#[test]
fn entries_are_read_one_after_the_other() {
    let bytes = encode_entries(vec![error_enum(), make_struct_spec_entry("A", "", vec![])]);
    let entries = read_entries(&bytes);
    assert_eq!(entries.len(), 2);
    assert!(matches!(entries[0], SpecEntry::ErrorEnum(_)));
    assert!(matches!(entries[1], SpecEntry::Struct(_)));
    assert!(read_entries(&bytes[..bytes.len() - 1]).len() == 1);
    assert!(read_entries(&[]).is_empty());
}
