//! Reports on the operations of a transaction.

use grat_core::decode::multi_op_decoder::{
    assemble_transaction, attribute, build_diagnostic_json, build_resource_json,
    decode_operation_results, decode_transaction_with_op_filter, describe_operation,
    filter_reports, MultiOpDecoder, OperationResultInfo,
};
use grat_core::decode::partition::{
    mark_topics, partition, partition_contract_events_by_operation,
    partition_events_by_operation, Mark,
};
use grat_core::decode::report::{
    OperationReport, ResourceUsage, TransactionAnalysis, TransactionOutcome, TransactionResources,
};
use grat_core::decode::xdr::{
    read_envelope, read_meta, read_result, ContractEventData, DiagnosticEventData, EnvelopeData,
    OperationCall, OperationOutcome, ResultData, SorobanMetaData,
};
use grat_core::error::GratError;
use grat_core::json::{own_json, JsonMember, JsonNumber, JsonValue};
use stellar_xdr::curr::{
    ContractEvent, ContractEventBody, ContractEventType, ContractEventV0, DiagnosticEvent,
    ExtensionPoint, FeeBumpTransaction, FeeBumpTransactionEnvelope, FeeBumpTransactionExt,
    FeeBumpTransactionInnerTx, HostFunction, InnerTransactionResult, InnerTransactionResultExt,
    InnerTransactionResultPair, InnerTransactionResultResult, InvokeContractArgs,
    InvokeHostFunctionOp, InvokeHostFunctionResult, LedgerEntryChanges, Limits, Memo, MuxedAccount,
    Operation, OperationBody, OperationResult, OperationResultTr, Preconditions, ScAddress,
    ScSymbol, ScVal, SequenceNumber, SorobanTransactionMeta, SorobanTransactionMetaExt,
    Transaction, TransactionEnvelope, TransactionExt, TransactionMeta, TransactionMetaV3,
    TransactionResult, TransactionResultExt, TransactionResultResult, TransactionV0,
    TransactionV0Envelope, TransactionV0Ext, TransactionV1Envelope, Uint256, WriteXdr,
};

fn hash(byte: u8) -> stellar_xdr::curr::Hash {
    stellar_xdr::curr::Hash([byte; 32])
}

fn operation(body: OperationBody) -> Operation {
    Operation {
        source_account: None,
        body,
    }
}

fn call(name: &str, args: Vec<ScVal>) -> Operation {
    operation(OperationBody::InvokeHostFunction(InvokeHostFunctionOp {
        host_function: HostFunction::InvokeContract(InvokeContractArgs {
            contract_address: ScAddress::Contract(hash(1)),
            function_name: ScSymbol(name.try_into().unwrap()),
            args: args.try_into().unwrap(),
        }),
        auth: vec![].try_into().unwrap(),
    }))
}

fn upload() -> Operation {
    operation(OperationBody::InvokeHostFunction(InvokeHostFunctionOp {
        host_function: HostFunction::UploadContractWasm(vec![1].try_into().unwrap()),
        auth: vec![].try_into().unwrap(),
    }))
}

fn v1(operations: Vec<Operation>) -> TransactionV1Envelope {
    TransactionV1Envelope {
        tx: Transaction {
            source_account: MuxedAccount::Ed25519(Uint256([0; 32])),
            fee: 100,
            seq_num: SequenceNumber(1),
            cond: Preconditions::None,
            memo: Memo::None,
            operations: operations.try_into().unwrap(),
            ext: TransactionExt::V0,
        },
        signatures: vec![].try_into().unwrap(),
    }
}

fn envelope(operations: Vec<Operation>) -> String {
    TransactionEnvelope::Tx(v1(operations))
        .to_xdr_base64(Limits::none())
        .unwrap()
}

fn fee_bump(operations: Vec<Operation>) -> String {
    TransactionEnvelope::TxFeeBump(FeeBumpTransactionEnvelope {
        tx: FeeBumpTransaction {
            fee_source: MuxedAccount::Ed25519(Uint256([0; 32])),
            fee: 200,
            inner_tx: FeeBumpTransactionInnerTx::Tx(v1(operations)),
            ext: FeeBumpTransactionExt::V0,
        },
        signatures: vec![].try_into().unwrap(),
    })
    .to_xdr_base64(Limits::none())
    .unwrap()
}

fn envelope_v0(operations: Vec<Operation>) -> String {
    TransactionEnvelope::TxV0(TransactionV0Envelope {
        tx: TransactionV0 {
            source_account_ed25519: Uint256([0; 32]),
            fee: 100,
            seq_num: SequenceNumber(1),
            time_bounds: None,
            memo: Memo::None,
            operations: operations.try_into().unwrap(),
            ext: TransactionV0Ext::V0,
        },
        signatures: vec![].try_into().unwrap(),
    })
    .to_xdr_base64(Limits::none())
    .unwrap()
}

fn invoked(result: InvokeHostFunctionResult) -> OperationResult {
    OperationResult::OpInner(OperationResultTr::InvokeHostFunction(result))
}

fn result(result: TransactionResultResult) -> String {
    TransactionResult {
        fee_charged: 100,
        result,
        ext: TransactionResultExt::V0,
    }
    .to_xdr_base64(Limits::none())
    .unwrap()
}

fn success(results: Vec<OperationResult>) -> String {
    result(TransactionResultResult::TxSuccess(
        results.try_into().unwrap(),
    ))
}

fn inner_success() -> String {
    result(TransactionResultResult::TxFeeBumpInnerSuccess(
        InnerTransactionResultPair {
            transaction_hash: hash(0),
            result: InnerTransactionResult {
                fee_charged: 1,
                result: InnerTransactionResultResult::TxSuccess(vec![].try_into().unwrap()),
                ext: InnerTransactionResultExt::V0,
            },
        },
    ))
}

fn event(topics: &[&str], contract_id: Option<u8>) -> ContractEvent {
    let mut values = vec![ScVal::U32(5)];
    for topic in topics {
        values.push(ScVal::Symbol(ScSymbol((*topic).try_into().unwrap())));
    }
    ContractEvent {
        ext: ExtensionPoint::V0,
        contract_id: contract_id.map(hash),
        type_: ContractEventType::Contract,
        body: ContractEventBody::V0(ContractEventV0 {
            topics: values.try_into().unwrap(),
            data: ScVal::Void,
        }),
    }
}

fn diagnostic(topics: &[&str]) -> DiagnosticEvent {
    DiagnosticEvent {
        in_successful_contract_call: true,
        event: event(topics, None),
    }
}

fn meta(events: Vec<ContractEvent>, diagnostic_events: Vec<DiagnosticEvent>) -> String {
    meta_v3(Some(SorobanTransactionMeta {
        ext: SorobanTransactionMetaExt::V0,
        events: events.try_into().unwrap(),
        return_value: ScVal::Void,
        diagnostic_events: diagnostic_events.try_into().unwrap(),
    }))
}

fn meta_v3(soroban_meta: Option<SorobanTransactionMeta>) -> String {
    TransactionMeta::V3(TransactionMetaV3 {
        ext: ExtensionPoint::V0,
        tx_changes_before: LedgerEntryChanges(vec![].try_into().unwrap()),
        operations: vec![].try_into().unwrap(),
        tx_changes_after: LedgerEntryChanges(vec![].try_into().unwrap()),
        soroban_meta,
    })
    .to_xdr_base64(Limits::none())
    .unwrap()
}

fn text(value: &str) -> JsonValue {
    JsonValue::String(value.to_string())
}

fn number(n: u64) -> JsonValue {
    JsonValue::Number(JsonNumber::PosInt(n))
}

fn object(members: Vec<(&str, JsonValue)>) -> JsonValue {
    JsonValue::Object(
        members
            .into_iter()
            .map(|(key, value)| JsonMember {
                key: key.to_string(),
                value,
            })
            .collect(),
    )
}

fn analysis(is_budget_error: bool) -> TransactionAnalysis<u8> {
    TransactionAnalysis {
        resources: TransactionResources {
            resources_consumed: ResourceUsage {
                cpu_instructions: 1,
                memory_bytes: 2,
                read_bytes: 3,
                write_bytes: 4,
            },
            resources_allocated: ResourceUsage {
                cpu_instructions: 5,
                memory_bytes: 6,
                read_bytes: 7,
                write_bytes: 8,
            },
            is_budget_error,
        },
        fee: 42,
    }
}

fn reports(tx_data: &JsonValue) -> Vec<OperationReport<u8>> {
    match MultiOpDecoder::new()
        .decode_transaction(tx_data, &analysis(false))
        .unwrap()
    {
        TransactionOutcome::Operations(reports) => reports,
        TransactionOutcome::WholeTransaction => panic!("expected reports on operations"),
    }
}

fn refusal(tx_data: &JsonValue) -> GratError {
    MultiOpDecoder::new()
        .decode_transaction(tx_data, &analysis(false))
        .unwrap_err()
}

#[test]
fn a_call_is_reported_with_its_arguments() {
    let tx_data = object(vec![
        (
            "envelopeXdr",
            text(&envelope(vec![call("transfer", vec![ScVal::U32(7), ScVal::Void])])),
        ),
        ("hash", text("abc")),
        ("ledger", number(4294967296 + 9)),
        (
            "resultXdr",
            text(&success(vec![invoked(InvokeHostFunctionResult::Success(hash(0)))])),
        ),
    ]);
    let reports = reports(&tx_data);
    assert_eq!(reports.len(), 1);
    let report = &reports[0];
    assert_eq!(report.error_category, "unknown");
    assert_eq!(report.error_code, 0);
    assert_eq!(report.error_name, "Unknown");
    assert_eq!(report.summary, "Operation 1 succeeded");
    let context = &report.transaction_context;
    assert_eq!(context.tx_hash, "abc");
    assert_eq!(context.ledger_sequence, 9);
    assert_eq!(context.function_name.as_deref(), Some("transfer"));
    assert_eq!(
        context.arguments,
        vec![format!("{:?}", ScVal::U32(7)), format!("{:?}", ScVal::Void)]
    );
    assert_eq!(context.return_value, None);
    assert_eq!(context.fee, 42);
    assert_eq!(context.resources.cpu_instructions_used, 1);
    assert_eq!(context.resources.cpu_instructions_limit, 5);
    assert_eq!(context.resources.memory_bytes_used, 2);
    assert_eq!(context.resources.memory_bytes_limit, 6);
    assert_eq!(context.resources.read_bytes, 3);
    assert_eq!(context.resources.read_bytes_limit, 7);
    assert_eq!(context.resources.write_bytes, 4);
    assert_eq!(context.operation_index, Some(0));
    assert_eq!(context.operation_count, Some(1));
    assert_eq!(report.diagnostic_input, None);
    assert_eq!(report.cross_contract_attribution, None);
}

#[test]
fn each_outcome_has_its_category() {
    let operations: Vec<Operation> = (0..8).map(|_| call("f", vec![ScVal::Void])).collect();
    let results = vec![
        invoked(InvokeHostFunctionResult::Success(hash(0))),
        invoked(InvokeHostFunctionResult::Malformed),
        invoked(InvokeHostFunctionResult::Trapped),
        invoked(InvokeHostFunctionResult::ResourceLimitExceeded),
        invoked(InvokeHostFunctionResult::EntryArchived),
        invoked(InvokeHostFunctionResult::InsufficientRefundableFee),
        OperationResult::OpBadAuth,
    ];
    let tx_data = object(vec![
        ("envelopeXdr", text(&envelope(operations))),
        (
            "resultXdr",
            text(&result(TransactionResultResult::TxFailed(
                results.try_into().unwrap(),
            ))),
        ),
    ]);
    let expected = vec![
        ("unknown", "Unknown", "Operation 1 succeeded", 1),
        ("Context", "HostError", "Operation 2 failed", 0),
        ("Contract", "HostError", "Operation 3 failed", 0),
        ("Budget", "HostError", "Operation 4 failed", 0),
        ("Storage", "HostError", "Operation 5 failed", 0),
        ("Context", "HostError", "Operation 6 failed", 0),
        (
            "Unknown",
            "NonInvokeHostFunctionOperation",
            "Operation 7 failed",
            0,
        ),
        // There is no outcome for the last operation.
        ("unknown", "Unknown", "Operation 8 succeeded", 1),
    ];
    let reports = reports(&tx_data);
    assert_eq!(reports.len(), expected.len());
    for (i, (category, name, summary, arguments)) in expected.into_iter().enumerate() {
        assert_eq!(reports[i].error_category, category);
        assert_eq!(reports[i].error_name, name);
        assert_eq!(reports[i].summary, summary);
        let context = &reports[i].transaction_context;
        assert_eq!(context.function_name.as_deref(), Some("f"));
        assert_eq!(context.arguments.len(), arguments);
        assert_eq!(context.operation_index, Some(i));
        assert_eq!(context.operation_count, Some(8));
        assert_eq!(context.tx_hash, "unknown");
        assert_eq!(context.ledger_sequence, 0);
    }
}

#[test]
fn operations_that_call_no_function() {
    let tx_data = object(vec![
        (
            "envelopeXdr",
            text(&envelope(vec![upload(), operation(OperationBody::Inflation)])),
        ),
        ("resultXdr", text(&success(vec![]))),
    ]);
    for report in reports(&tx_data) {
        assert_eq!(report.transaction_context.function_name, None);
        assert!(report.transaction_context.arguments.is_empty());
    }
}

#[test]
fn envelopes_of_each_form() {
    let operations = || vec![call("a", vec![]), upload(), operation(OperationBody::Inflation)];
    let calls = || {
        EnvelopeData::Operations(vec![
            OperationCall::InvokeContract {
                function_name: "a".to_string(),
                arguments: Vec::new(),
            },
            OperationCall::OtherHostFunction,
            OperationCall::NotInvoke,
        ])
    };
    assert_eq!(read_envelope(&envelope(operations())), Ok(calls()));
    assert_eq!(read_envelope(&fee_bump(operations())), Ok(calls()));
    assert_eq!(
        read_envelope(&envelope_v0(operations())),
        Ok(EnvelopeData::V0)
    );
    assert!(read_envelope("AAAA").is_err());
    // A transaction of the first form counts as one operation, whatever it holds.
    let tx_data = object(vec![
        ("envelopeXdr", text(&envelope_v0(operations()))),
        ("resultXdr", text(&success(vec![]))),
    ]);
    assert_eq!(reports(&tx_data).len(), 1);
}

#[test]
fn results_of_each_form() {
    assert_eq!(
        read_result(&success(vec![OperationResult::OpNoAccount])),
        Ok(ResultData::Success(vec![OperationOutcome::Other]))
    );
    let failed = result(TransactionResultResult::TxFailed(
        vec![invoked(InvokeHostFunctionResult::Trapped)]
            .try_into()
            .unwrap(),
    ));
    assert_eq!(
        read_result(&failed),
        Ok(ResultData::Failed(vec![OperationOutcome::Trapped]))
    );
    assert_eq!(
        read_result(&inner_success()),
        Ok(ResultData::FeeBumpInnerSuccess)
    );
    assert_eq!(
        read_result(&result(TransactionResultResult::TxBadSeq)),
        Ok(ResultData::Other)
    );
    assert!(read_result("").is_err());
}

#[test]
fn events_are_read_from_the_third_form() {
    let first = diagnostic(&["fn_call"]);
    let encoded = first.to_xdr_base64(Limits::none()).unwrap();
    assert_eq!(
        read_meta(&meta(vec![event(&["x"], Some(3))], vec![first])),
        Ok(Some(SorobanMetaData {
            diagnostic_events: vec![DiagnosticEventData {
                topics: vec![None, Some("fn_call".to_string())],
                xdr: Some(encoded),
            }],
            contract_events: vec![ContractEventData {
                topics: vec![None, Some("x".to_string())],
                contract_id: Some([3; 32]),
            }],
        }))
    );
    assert_eq!(read_meta(&meta_v3(None)), Ok(None));
    let old = TransactionMeta::V0(vec![].try_into().unwrap())
        .to_xdr_base64(Limits::none())
        .unwrap();
    assert_eq!(read_meta(&old), Ok(None));
    assert!(read_meta("!").is_err());
}

#[test]
fn missing_and_malformed_parts_are_refused() {
    let internal = |message: &str| GratError::Internal(message.to_string());
    assert_eq!(
        refusal(&object(vec![])),
        internal("Missing envelopeXdr in transaction data")
    );
    assert_eq!(
        refusal(&object(vec![("envelopeXdr", number(1))])),
        internal("Missing envelopeXdr in transaction data")
    );
    assert_eq!(
        refusal(&JsonValue::Null),
        internal("Missing envelopeXdr in transaction data")
    );
    let message = |error: GratError| match error {
        GratError::Internal(message) => message,
        other => panic!("expected Internal, got {:?}", other),
    };
    let bad = message(refusal(&object(vec![("envelopeXdr", text("AAAA"))])));
    assert!(bad.starts_with("Failed to decode envelope XDR: "));
    let envelope_xdr = text(&envelope(vec![call("f", vec![])]));
    assert_eq!(
        refusal(&object(vec![("envelopeXdr", envelope_xdr.clone())])),
        internal("Missing resultXdr in transaction data")
    );
    let bad = message(refusal(&object(vec![
        ("envelopeXdr", envelope_xdr.clone()),
        ("resultXdr", text("AAAA")),
    ])));
    assert!(bad.starts_with("Failed to decode result XDR: "));
    let bad = message(refusal(&object(vec![
        ("envelopeXdr", envelope_xdr.clone()),
        ("resultMetaXdr", text("AAAA")),
        ("resultXdr", text(&success(vec![]))),
    ])));
    assert!(bad.starts_with("Failed to decode meta XDR: "));
    assert_eq!(
        refusal(&object(vec![
            ("envelopeXdr", envelope_xdr),
            (
                "resultXdr",
                text(&result(TransactionResultResult::TxTooLate))
            ),
        ])),
        GratError::NotSorobanTransaction
    );
}

#[test]
fn a_fee_bump_that_succeeded_is_reported_on_as_a_whole() {
    let tx_data = object(vec![
        ("envelopeXdr", text(&fee_bump(vec![call("f", vec![])]))),
        // Malformed events do not matter here.
        ("resultMetaXdr", text("!")),
        ("resultXdr", text(&inner_success())),
    ]);
    assert_eq!(
        MultiOpDecoder::new().decode_transaction(&tx_data, &analysis(false)),
        Ok(TransactionOutcome::WholeTransaction)
    );
    assert_eq!(
        decode_transaction_with_op_filter(&tx_data, &analysis(false), Some(3)),
        Ok(TransactionOutcome::WholeTransaction)
    );
}

#[test]
fn parts_that_were_decoded_elsewhere() {
    let tx_data = object(vec![]);
    let analysis = analysis(false);
    assert_eq!(
        assemble_transaction(
            &tx_data,
            &analysis,
            Some(Err("a".to_string())),
            None,
            None
        ),
        Err(GratError::Internal(
            "Failed to decode envelope XDR: a".to_string()
        ))
    );
    assert_eq!(
        assemble_transaction(
            &tx_data,
            &analysis,
            Some(Ok(EnvelopeData::V0)),
            Some(Err("b".to_string())),
            None
        ),
        Err(GratError::Internal(
            "Failed to decode result XDR: b".to_string()
        ))
    );
    assert_eq!(
        assemble_transaction(
            &tx_data,
            &analysis,
            Some(Ok(EnvelopeData::V0)),
            Some(Ok(ResultData::Success(Vec::new()))),
            Some(Err("c".to_string()))
        ),
        Err(GratError::Internal(
            "Failed to decode meta XDR: c".to_string()
        ))
    );
    let none = assemble_transaction(
        &tx_data,
        &analysis,
        Some(Ok(EnvelopeData::Operations(Vec::new()))),
        Some(Ok(ResultData::Success(Vec::new()))),
        Some(Ok(None)),
    );
    assert_eq!(none, Ok(TransactionOutcome::Operations(Vec::new())));
}

#[test]
fn events_are_handed_to_their_operations() {
    let diagnostics = vec![
        diagnostic(&["core_metrics"]),
        diagnostic(&["fn_call", "a"]),
        diagnostic(&["fn_return"]),
        diagnostic(&["FN_CALL", "b"]),
    ];
    let encoded: Vec<JsonValue> = diagnostics
        .iter()
        .map(|event| text(&event.to_xdr_base64(Limits::none()).unwrap()))
        .collect();
    let contracts = vec![
        event(&["call"], None),
        event(&["transfer"], Some(0xab)),
        event(&["return"], Some(1)),
        event(&["call"], None),
    ];
    let tx_data = object(vec![
        (
            "envelopeXdr",
            text(&envelope(vec![call("a", vec![]), call("b", vec![])])),
        ),
        ("hash", text("abc")),
        ("resultMetaXdr", text(&meta(contracts, diagnostics))),
        ("resultXdr", text(&success(vec![]))),
    ]);
    let reports = reports(&tx_data);
    assert_eq!(
        reports[0].diagnostic_input,
        Some(object(vec![
            (
                "diagnosticEventsXdr",
                JsonValue::Array(vec![encoded[1].clone(), encoded[2].clone()])
            ),
            ("hash", text("abc")),
            ("ledger", JsonValue::Null),
        ]))
    );
    assert_eq!(
        reports[1].diagnostic_input.as_ref().unwrap().get("diagnosticEventsXdr"),
        Some(&JsonValue::Array(vec![encoded[3].clone()]))
    );
    let attribution = reports[0].cross_contract_attribution.as_ref().unwrap();
    assert_eq!(attribution.contract_address, "ab".repeat(32));
    assert_eq!(attribution.function_name.as_deref(), Some("a"));
    assert_eq!(attribution.call_depth, 0);
    assert_eq!(attribution.origin_description, "Operation 1");
    let attribution = reports[1].cross_contract_attribution.as_ref().unwrap();
    assert_eq!(attribution.contract_address, "");
    assert_eq!(attribution.origin_description, "Operation 2");
}

#[test]
fn one_report_is_selected_by_its_index() {
    let tx_data = object(vec![
        (
            "envelopeXdr",
            text(&envelope(vec![call("a", vec![]), call("b", vec![])])),
        ),
        ("resultXdr", text(&success(vec![]))),
    ]);
    let names = |op_index: Option<usize>| {
        match decode_transaction_with_op_filter(&tx_data, &analysis(false), op_index).unwrap() {
            TransactionOutcome::Operations(reports) => reports
                .into_iter()
                .map(|report| report.transaction_context.function_name.unwrap())
                .collect::<Vec<String>>(),
            TransactionOutcome::WholeTransaction => panic!("expected reports on operations"),
        }
    };
    assert_eq!(names(Some(1)), vec!["b"]);
    assert_eq!(names(Some(0)), vec!["a"]);
    assert_eq!(names(Some(2)), vec!["a", "b"]);
    assert_eq!(names(None), vec!["a", "b"]);
    assert_eq!(filter_reports(vec![5, 6, 7], Some(0)), vec![5]);
    assert_eq!(filter_reports(Vec::<u8>::new(), Some(0)), Vec::<u8>::new());
}

#[test]
fn transaction_data_may_come_from_parsed_text() {
    let json = format!(
        "{{\"envelopeXdr\": \"{}\", \"resultXdr\": \"{}\", \"ledger\": 12}}",
        envelope(vec![call("a", vec![])]),
        success(vec![])
    );
    let tx_data = own_json(serde_json::from_str(&json).unwrap());
    assert_eq!(reports(&tx_data)[0].transaction_context.ledger_sequence, 12);
}

#[test]
fn resources_as_json() {
    let usage = |cpu: u64, memory: u64, read: u64, write: u64| {
        object(vec![
            ("cpuInstructions", number(cpu)),
            ("memoryBytes", number(memory)),
            ("readBytes", number(read)),
            ("writeBytes", number(write)),
        ])
    };
    assert_eq!(
        build_resource_json(analysis(false).resources, true),
        object(vec![
            ("diagnosticEvents", JsonValue::Array(Vec::new())),
            ("resourcesAllocated", usage(5, 6, 7, 8)),
            ("resourcesConsumed", usage(1, 2, 3, 4)),
            ("status", text("SUCCESS")),
        ])
    );
    let exceeded = build_resource_json(analysis(true).resources, false);
    assert_eq!(exceeded.get("status"), Some(&text("FAILED")));
    assert_eq!(
        exceeded.get("diagnosticEvents"),
        Some(&JsonValue::Array(vec![object(vec![
            (
                "data",
                object(vec![
                    ("category", text("cpu")),
                    ("limit", number(5)),
                    ("used", number(1)),
                ])
            ),
            ("type", text("budget")),
        ])]))
    );
}

#[test]
fn events_that_cannot_be_encoded_are_left_out() {
    let events = vec![
        DiagnosticEventData {
            topics: Vec::new(),
            xdr: None,
        },
        DiagnosticEventData {
            topics: Vec::new(),
            xdr: Some("QUJD".to_string()),
        },
    ];
    let tx_data = object(vec![("hash", number(1)), ("ledger", text("x"))]);
    assert_eq!(
        build_diagnostic_json(&events, &tx_data),
        object(vec![
            ("diagnosticEventsXdr", JsonValue::Array(vec![text("QUJD")])),
            ("hash", number(1)),
            ("ledger", text("x")),
        ])
    );
}

#[test]
fn the_first_event_of_a_contract_names_it() {
    let of = |contract_id: Option<[u8; 32]>| ContractEventData {
        topics: Vec::new(),
        contract_id,
    };
    let events = vec![of(None), of(Some([0x0f; 32])), of(Some([1; 32]))];
    let attribution = attribute(&events, &None, 4).unwrap();
    assert_eq!(attribution.contract_address, "0f".repeat(32));
    assert_eq!(attribution.function_name, None);
    assert_eq!(attribution.origin_description, "Operation 5");
    assert_eq!(attribute(&Vec::new(), &None, 4), None);
}

#[test]
fn what_is_known_of_an_operation() {
    let call = OperationCall::InvokeContract {
        function_name: String::new(),
        arguments: vec!["1".to_string()],
    };
    let unnamed = describe_operation(Some(&call), OperationOutcome::Other);
    assert_eq!(
        unnamed,
        OperationResultInfo {
            function_name: None,
            arguments: Vec::new(),
            return_value: None,
            is_success: false,
            error_category: Some("Unknown".to_string()),
            error_name: Some("NonInvokeHostFunctionOperation".to_string()),
        }
    );
    let trapped = describe_operation(Some(&call), OperationOutcome::Trapped);
    assert_eq!(trapped.function_name.as_deref(), Some(""));
    let succeeded = describe_operation(Some(&call), OperationOutcome::Success);
    assert_eq!(succeeded.arguments, vec!["1"]);
    assert!(succeeded.is_success);
    let infos = decode_operation_results(
        &EnvelopeData::Operations(vec![call]),
        &vec![OperationOutcome::EntryArchived],
        2,
    );
    assert_eq!(infos.len(), 2);
    assert_eq!(infos[0].error_category.as_deref(), Some("Storage"));
    assert!(infos[1].is_success);
    assert_eq!(infos[1].function_name, None);
}

const CALL: Mark = Mark {
    is_call: true,
    is_return: false,
};
const RETURN: Mark = Mark {
    is_call: false,
    is_return: true,
};
const PLAIN: Mark = Mark {
    is_call: false,
    is_return: false,
};

#[test]
fn topics_report_calls_and_returns() {
    let mark = |topics: &[&str]| {
        mark_topics(
            &topics
                .iter()
                .map(|topic| Some(topic.to_string()))
                .collect(),
        )
    };
    for word in ["fn_call", "function_call", "call", "Fn_Call", "CALL"] {
        assert_eq!(mark(&["x", word]), CALL);
    }
    for word in ["fn_return", "function_return", "return", "RETURN"] {
        assert_eq!(mark(&[word]), RETURN);
    }
    for word in ["", "calls", "fn_cal", "fn-call", "returned"] {
        assert_eq!(mark(&[word]), PLAIN);
    }
    assert_eq!(mark_topics(&vec![None]), PLAIN);
    let both = mark(&["call", "return"]);
    assert!(both.is_call && both.is_return);
}

#[test]
fn calls_inside_calls_begin_no_operation() {
    let marks = vec![PLAIN, CALL, CALL, RETURN, PLAIN, RETURN, PLAIN, CALL, RETURN];
    let events = (0..9).collect::<Vec<u8>>();
    assert_eq!(
        partition(events.clone(), &marks, 3),
        vec![vec![1, 2, 3, 4, 5, 6], vec![7, 8], vec![]]
    );
    // Put one after the other, the shares are the events from the first call on.
    let joined: Vec<u8> = partition(events.clone(), &marks, 3).concat();
    assert_eq!(joined, events[1..]);
    assert_eq!(partition(events.clone(), &marks, 1), vec![events.clone()]);
    assert_eq!(partition(events.clone(), &marks, 0), vec![events]);
}

#[test]
fn more_calls_than_operations_stay_with_the_last() {
    let marks = vec![CALL, RETURN, CALL, RETURN, RETURN, CALL];
    let events = (0..6).collect::<Vec<u8>>();
    assert_eq!(
        partition(events, &marks, 2),
        vec![vec![0, 1], vec![2, 3, 4, 5]]
    );
    assert_eq!(
        partition(Vec::<u8>::new(), &Vec::new(), 4),
        vec![Vec::<u8>::new()]
    );
}

#[test]
fn events_before_any_call_belong_to_no_operation() {
    let event = |topic: &str| DiagnosticEventData {
        topics: vec![Some(topic.to_string())],
        xdr: None,
    };
    let partitions =
        partition_events_by_operation(vec![event("log"), event("fn_call"), event("log")], 2);
    assert_eq!(
        partitions,
        vec![vec![event("fn_call"), event("log")], Vec::new()]
    );
    let contract = |topic: &str| ContractEventData {
        topics: vec![Some(topic.to_string())],
        contract_id: None,
    };
    assert_eq!(
        partition_contract_events_by_operation(vec![contract("log"), contract("log")], 2),
        vec![Vec::new(), Vec::new()]
    );
    assert_eq!(
        partition_contract_events_by_operation(vec![contract("log")], 1),
        vec![vec![contract("log")]]
    );
}

#[test]
fn an_answer_of_the_network_is_reported_on() {
    for (succeeded, category, name, summary) in [
        (true, "unknown", "Unknown", "Operation 1 succeeded"),
        (false, "Contract", "HostError", "Operation 1 failed"),
    ] {
        let result_xdr = if succeeded {
            success(vec![invoked(InvokeHostFunctionResult::Success(hash(0)))])
        } else {
            result(TransactionResultResult::TxFailed(
                vec![invoked(InvokeHostFunctionResult::Trapped)]
                    .try_into()
                    .unwrap(),
            ))
        };
        let json = format!(
            "{{\"status\": \"{}\", \"hash\": \"testhash\", \"ledger\": 12345, \
             \"envelopeXdr\": \"{}\", \"resultXdr\": \"{}\", \"resultMetaXdr\": \"{}\", \
             \"latestLedger\": 12350}}",
            if succeeded { "SUCCESS" } else { "FAILED" },
            envelope(vec![call("test_fn", vec![ScVal::U32(42)])]),
            result_xdr,
            meta(vec![], vec![])
        );
        let reports = reports(&own_json(serde_json::from_str(&json).unwrap()));
        assert_eq!(reports.len(), 1);
        assert_eq!(reports[0].error_category, category);
        assert_eq!(reports[0].error_name, name);
        assert_eq!(reports[0].summary, summary);
        let context = &reports[0].transaction_context;
        assert_eq!(context.tx_hash, "testhash");
        assert_eq!(context.ledger_sequence, 12345);
        assert_eq!(context.function_name.as_deref(), Some("test_fn"));
        assert_eq!(context.arguments.len(), if succeeded { 1 } else { 0 });
    }
}
