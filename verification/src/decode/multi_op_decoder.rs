//! Reports on a transaction, one for each of its operations.

use vstd::prelude::*;

use crate::decode::partition::{
    contract_marks, diagnostic_marks, events_of, events_of_mapped,
    partition_contract_events_by_operation,
    partition_events_by_operation, share_views, shares,
};
use crate::decode::report::{
    report_models, AttributionModel, ContextModel, FailureAttribution, OperationReport,
    OutcomeModel, ReportModel, ResourceSummary, ResourceUsage, TransactionAnalysis,
    TransactionContext, TransactionOutcome, TransactionResources,
};
use crate::decode::xdr::{
    contract_event_models, diagnostic_models, envelope_in, envelope_result, meta_in,
    meta_result, read_envelope, read_meta, read_result, result_in, transaction_result, CallModel,
    ContractEventData, ContractEventModel, DiagnosticEventData, DiagnosticEventModel,
    EnvelopeData, EnvelopeModel, MetaModel, OperationCall, OperationOutcome, ResultData,
    ResultModel, SorobanMetaData,
};
use crate::error::{GratError, GratErrorModel, GratResult};
use crate::hex_text::{encode_hex, hex_of};
use crate::json::{
    field, json_models, string_of, JsonMember, JsonModel, JsonNumber, JsonValue,
    NumberModel,
};
use crate::text::{
    append, append_decimal, copy_optional, copy_texts, decimal, optional_text, owned, texts,
};

verus! {

/// What is known of one operation.
#[derive(Debug, Clone, PartialEq, Eq)]
pub struct OperationResultInfo {
    pub function_name: Option<String>,
    pub arguments: Vec<String>,
    pub return_value: Option<String>,
    pub is_success: bool,
    pub error_category: Option<String>,
    pub error_name: Option<String>,
}

/// The model of [`OperationResultInfo`].
pub struct InfoModel {
    pub function_name: Option<Seq<char>>,
    pub arguments: Seq<Seq<char>>,
    pub return_value: Option<Seq<char>>,
    pub is_success: bool,
    pub error_category: Option<Seq<char>>,
    pub error_name: Option<Seq<char>>,
}

impl View for OperationResultInfo {
    type V = InfoModel;

    open spec fn view(&self) -> InfoModel {
        InfoModel {
            function_name: optional_text(self.function_name),
            arguments: texts(self.arguments@),
            return_value: optional_text(self.return_value),
            is_success: self.is_success,
            error_category: optional_text(self.error_category),
            error_name: optional_text(self.error_name),
        }
    }
}

/// How many operations a transaction has.
pub open spec fn operation_count(envelope: EnvelopeModel) -> nat {
    match envelope {
        EnvelopeModel::V0 => 1,
        EnvelopeModel::Operations(calls) => calls.len(),
    }
}

/// What an operation calls; nothing where the operation is not known.
pub open spec fn call_at(envelope: EnvelopeModel, index: int) -> Option<CallModel> {
    match envelope {
        EnvelopeModel::V0 => None,
        EnvelopeModel::Operations(calls) => if 0 <= index < calls.len() {
            Some(calls[index])
        } else {
            None
        },
    }
}

/// What came of an operation; an operation without an outcome counts as successful.
pub open spec fn outcome_at(outcomes: Seq<OperationOutcome>, index: int) -> OperationOutcome {
    if 0 <= index < outcomes.len() {
        outcomes[index]
    } else {
        OperationOutcome::Success
    }
}

/// The function of a contract that is called.
pub open spec fn called_function(call: Option<CallModel>) -> Option<Seq<char>> {
    match call {
        Some(CallModel::InvokeContract { function_name, .. }) => Some(function_name),
        _ => None,
    }
}

/// The category of a failure and its name.
pub open spec fn failure_of(outcome: OperationOutcome) -> Option<(Seq<char>, Seq<char>)> {
    match outcome {
        OperationOutcome::Success => None,
        OperationOutcome::Trapped => Some(("Contract"@, "HostError"@)),
        OperationOutcome::ResourceLimitExceeded => Some(("Budget"@, "HostError"@)),
        OperationOutcome::EntryArchived => Some(("Storage"@, "HostError"@)),
        OperationOutcome::Malformed => Some(("Context"@, "HostError"@)),
        OperationOutcome::InsufficientRefundableFee => Some(("Context"@, "HostError"@)),
        OperationOutcome::Other => Some(("Unknown"@, "NonInvokeHostFunctionOperation"@)),
    }
}

/// What is known of an operation: the arguments only where it succeeded. Where its outcome
/// is not that of a host function, a function without a name is not given.
pub open spec fn info_of(call: Option<CallModel>, outcome: OperationOutcome) -> InfoModel {
    let function_name = called_function(call);
    InfoModel {
        function_name: if outcome is Other && function_name == Some(Seq::<char>::empty()) {
            None
        } else {
            function_name
        },
        arguments: match call {
            Some(CallModel::InvokeContract { arguments, .. }) if outcome is Success => arguments,
            _ => Seq::empty(),
        },
        return_value: None,
        is_success: outcome is Success,
        error_category: match failure_of(outcome) {
            Some((category, _)) => Some(category),
            None => None,
        },
        error_name: match failure_of(outcome) {
            Some((_, name)) => Some(name),
            None => None,
        },
    }
}

/// The models of what is known of several operations.
pub open spec fn info_models(infos: Seq<OperationResultInfo>) -> Seq<InfoModel> {
    Seq::new(infos.len(), |i: int| infos[i]@)
}

/// What an operation calls; nothing where the operation is not known.
fn get_operation(envelope: &EnvelopeData, index: usize) -> (call: Option<&OperationCall>)
    ensures
        match call {
            Some(call) => call_at(envelope@, index as int) == Some(call@),
            None => call_at(envelope@, index as int) is None,
        },
{
    match envelope {
        EnvelopeData::V0 => None,
        EnvelopeData::Operations(calls) => if index < calls.len() {
            Some(&calls[index])
        } else {
            None
        },
    }
}

/// The model of a call that may be absent.
pub open spec fn optional_call(call: Option<&OperationCall>) -> Option<CallModel> {
    match call {
        Some(call) => Some(call@),
        None => None,
    }
}

/// The function of a contract that is called.
fn function_called(call: Option<&OperationCall>) -> (name: Option<String>)
    ensures
        optional_text(name) == called_function(optional_call(call)),
{
    match call {
        Some(OperationCall::InvokeContract { function_name, .. }) => Some(
            owned(function_name.as_str()),
        ),
        _ => None,
    }
}

/// What is known of an operation that failed.
fn failed_operation(call: Option<&OperationCall>, category: &str, name: &str) -> (info:
    OperationResultInfo)
    ensures
        info@ == (InfoModel {
            function_name: called_function(optional_call(call)),
            arguments: Seq::empty(),
            return_value: None,
            is_success: false,
            error_category: Some(category@),
            error_name: Some(name@),
        }),
{
    let info = OperationResultInfo {
        function_name: function_called(call),
        arguments: Vec::new(),
        return_value: None,
        is_success: false,
        error_category: Some(owned(category)),
        error_name: Some(owned(name)),
    };
    assert(info@.arguments =~= Seq::empty());
    info
}

/// What is known of an operation.
pub fn describe_operation(call: Option<&OperationCall>, outcome: OperationOutcome) -> (info:
    OperationResultInfo)
    ensures
        info@ == info_of(optional_call(call), outcome),
{
    match outcome {
        OperationOutcome::Success => {
            let arguments = match call {
                Some(OperationCall::InvokeContract { arguments, .. }) => copy_texts(arguments),
                _ => Vec::new(),
            };
            let info = OperationResultInfo {
                function_name: function_called(call),
                arguments,
                return_value: None,
                is_success: true,
                error_category: None,
                error_name: None,
            };
            assert(info@.arguments =~= info_of(optional_call(call), outcome).arguments);
            info
        },
        OperationOutcome::Trapped => failed_operation(call, "Contract", "HostError"),
        OperationOutcome::ResourceLimitExceeded => failed_operation(call, "Budget", "HostError"),
        OperationOutcome::EntryArchived => failed_operation(call, "Storage", "HostError"),
        OperationOutcome::Malformed => failed_operation(call, "Context", "HostError"),
        OperationOutcome::InsufficientRefundableFee => failed_operation(
            call,
            "Context",
            "HostError",
        ),
        OperationOutcome::Other => {
            let mut info = failed_operation(call, "Unknown", "NonInvokeHostFunctionOperation");
            let unnamed = match &info.function_name {
                Some(name) => name.as_str().is_empty(),
                None => false,
            };
            if unnamed {
                assert(info.function_name->0@ =~= Seq::empty());
                info.function_name = None;
            }
            info
        },
    }
}

/// What is known of each of the first `num_ops` operations.
pub fn decode_operation_results(
    envelope: &EnvelopeData,
    op_results: &Vec<OperationOutcome>,
    num_ops: usize,
) -> (infos: Vec<OperationResultInfo>)
    ensures
        info_models(infos@) == Seq::new(
            num_ops as nat,
            |i: int| info_of(call_at(envelope@, i), outcome_at(op_results@, i)),
        ),
{
    let mut infos: Vec<OperationResultInfo> = Vec::new();
    let mut i: usize = 0;
    while i < num_ops
        invariant
            i <= num_ops,
            infos@.len() == i,
            forall|j: int|
                0 <= j < i ==> (#[trigger] infos@[j])@ == info_of(
                    call_at(envelope@, j),
                    outcome_at(op_results@, j),
                ),
        decreases num_ops - i,
    {
        let outcome = if i < op_results.len() {
            op_results[i]
        } else {
            OperationOutcome::Success
        };
        infos.push(describe_operation(get_operation(envelope, i), outcome));
        i += 1;
    }
    assert(info_models(infos@) =~= Seq::new(
        num_ops as nat,
        |i: int| info_of(call_at(envelope@, i), outcome_at(op_results@, i)),
    ));
    infos
}

/// A text, or `fallback` where it is absent.
pub open spec fn text_or(text: Option<Seq<char>>, fallback: Seq<char>) -> Seq<char> {
    match text {
        Some(text) => text,
        None => fallback,
    }
}

/// The ledger that a transaction is in: the low 32 bits of the member `ledger`, or 0
/// where that is no integer or a negative one.
pub open spec fn ledger_of(tx_data: JsonModel) -> u32 {
    match field(tx_data, "ledger"@) {
        Some(JsonModel::Number(NumberModel::PosInt(n))) => (n as int % 0x1_0000_0000) as u32,
        _ => 0,
    }
}

/// The resources of a transaction, as its reports give them.
pub open spec fn summary_of(resources: TransactionResources) -> ResourceSummary {
    ResourceSummary {
        cpu_instructions_used: resources.resources_consumed.cpu_instructions,
        cpu_instructions_limit: resources.resources_allocated.cpu_instructions,
        memory_bytes_used: resources.resources_consumed.memory_bytes,
        memory_bytes_limit: resources.resources_allocated.memory_bytes,
        read_bytes: resources.resources_consumed.read_bytes,
        read_bytes_limit: resources.resources_allocated.read_bytes,
        write_bytes: resources.resources_consumed.write_bytes,
    }
}

/// A JSON number.
pub open spec fn json_number(n: u64) -> JsonModel {
    JsonModel::Number(NumberModel::PosInt(n))
}

/// Amounts of the metered resources as JSON.
pub open spec fn usage_json(usage: ResourceUsage) -> JsonModel {
    JsonModel::Object(
        seq![
            ("cpuInstructions"@, json_number(usage.cpu_instructions)),
            ("memoryBytes"@, json_number(usage.memory_bytes)),
            ("readBytes"@, json_number(usage.read_bytes)),
            ("writeBytes"@, json_number(usage.write_bytes)),
        ],
    )
}

/// The event that a transaction failed for want of instructions, as JSON.
pub open spec fn budget_event_json(resources: TransactionResources) -> JsonModel {
    JsonModel::Object(
        seq![
            (
                "data"@,
                JsonModel::Object(
                    seq![
                        ("category"@, JsonModel::String("cpu"@)),
                        (
                            "limit"@,
                            json_number(resources.resources_allocated.cpu_instructions),
                        ),
                        ("used"@, json_number(resources.resources_consumed.cpu_instructions)),
                    ],
                ),
            ),
            ("type"@, JsonModel::String("budget"@)),
        ],
    )
}

/// The resources of a transaction and the status of one of its operations, as JSON.
pub open spec fn resource_json(resources: TransactionResources, is_success: bool) -> JsonModel {
    JsonModel::Object(
        seq![
            (
                "diagnosticEvents"@,
                JsonModel::Array(
                    if resources.is_budget_error {
                        seq![budget_event_json(resources)]
                    } else {
                        Seq::empty()
                    },
                ),
            ),
            ("resourcesAllocated"@, usage_json(resources.resources_allocated)),
            ("resourcesConsumed"@, usage_json(resources.resources_consumed)),
            (
                "status"@,
                JsonModel::String(
                    if is_success {
                        "SUCCESS"@
                    } else {
                        "FAILED"@
                    },
                ),
            ),
        ],
    )
}

/// The encodings of the events that can be encoded, in order.
pub open spec fn encodings(events: Seq<DiagnosticEventModel>) -> Seq<JsonModel>
    decreases events.len(),
{
    if events.len() == 0 {
        Seq::empty()
    } else {
        match events.last().xdr {
            Some(text) => encodings(events.drop_last()).push(JsonModel::String(text)),
            None => encodings(events.drop_last()),
        }
    }
}

/// A value, or null where it is absent.
pub open spec fn value_or_null(value: Option<JsonModel>) -> JsonModel {
    match value {
        Some(value) => value,
        None => JsonModel::Null,
    }
}

/// The diagnostic events of one operation as JSON, with what tells the transaction.
pub open spec fn diagnostic_json(
    events: Seq<DiagnosticEventModel>,
    tx_data: JsonModel,
) -> JsonModel {
    JsonModel::Object(
        seq![
            ("diagnosticEventsXdr"@, JsonModel::Array(encodings(events))),
            ("hash"@, value_or_null(field(tx_data, "hash"@))),
            ("ledger"@, value_or_null(field(tx_data, "ledger"@))),
        ],
    )
}

/// The contract of the first event that is of a contract.
pub open spec fn first_contract(events: Seq<ContractEventModel>) -> Option<Seq<u8>>
    decreases events.len(),
{
    if events.len() == 0 {
        None
    } else if events[0].contract_id is Some {
        events[0].contract_id
    } else {
        first_contract(events.drop_first())
    }
}

/// The contract that an operation's events are of.
pub open spec fn attribution_of(
    events: Seq<ContractEventModel>,
    function_name: Option<Seq<char>>,
    index: int,
) -> Option<AttributionModel> {
    if events.len() == 0 {
        None
    } else {
        Some(
            AttributionModel {
                contract_address: match first_contract(events) {
                    Some(id) => hex_of(id),
                    None => Seq::empty(),
                },
                function_name,
                call_depth: 0,
                origin_description: "Operation "@ + decimal((index + 1) as nat),
            },
        )
    }
}

/// The report on one operation.
pub open spec fn report_of<F>(
    tx_data: JsonModel,
    analysis: TransactionAnalysis<F>,
    info: InfoModel,
    index: usize,
    count: usize,
    diagnostic_events: Seq<DiagnosticEventModel>,
    contract_events: Seq<ContractEventModel>,
) -> ReportModel<F> {
    ReportModel {
        error_category: text_or(info.error_category, "unknown"@),
        error_code: 0,
        error_name: text_or(info.error_name, "Unknown"@),
        summary: "Operation "@ + decimal((index + 1) as nat) + if info.is_success {
            " succeeded"@
        } else {
            " failed"@
        },
        transaction_context: ContextModel {
            tx_hash: text_or(string_of(field(tx_data, "hash"@)), "unknown"@),
            ledger_sequence: ledger_of(tx_data),
            function_name: info.function_name,
            arguments: info.arguments,
            return_value: info.return_value,
            fee: analysis.fee,
            resources: summary_of(analysis.resources),
            operation_index: Some(index),
            operation_count: Some(count),
        },
        diagnostic_input: if diagnostic_events.len() == 0 {
            None
        } else {
            Some(diagnostic_json(diagnostic_events, tx_data))
        },
        resource_input: resource_json(analysis.resources, info.is_success),
        cross_contract_attribution: attribution_of(
            contract_events,
            info.function_name,
            index as int,
        ),
    }
}

/// A member of a JSON object.
fn member(key: &str, value: JsonValue) -> (member: JsonMember)
    ensures
        member.key@ == key@,
        member.value == value,
{
    JsonMember { key: owned(key), value }
}

/// A JSON number.
fn number_json(n: u64) -> (value: JsonValue)
    ensures
        value.model() == json_number(n),
{
    JsonValue::Number(JsonNumber::PosInt(n))
}

/// A JSON string.
fn text_json(text: String) -> (value: JsonValue)
    ensures
        value.model() == JsonModel::String(text@),
{
    JsonValue::String(text)
}

/// Amounts of the metered resources as JSON.
fn build_usage(usage: ResourceUsage) -> (value: JsonValue)
    ensures
        value.model() == usage_json(usage),
{
    let members = vec![
        member("cpuInstructions", number_json(usage.cpu_instructions)),
        member("memoryBytes", number_json(usage.memory_bytes)),
        member("readBytes", number_json(usage.read_bytes)),
        member("writeBytes", number_json(usage.write_bytes)),
    ];
    let value = JsonValue::Object(members);
    assert(value.model()->Object_0 =~= usage_json(usage)->Object_0);
    value
}

/// The event that a transaction failed for want of instructions, as JSON.
fn build_budget_event(resources: TransactionResources) -> (value: JsonValue)
    ensures
        value.model() == budget_event_json(resources),
{
    let data = JsonValue::Object(
        vec![
            member("category", text_json(owned("cpu"))),
            member("limit", number_json(resources.resources_allocated.cpu_instructions)),
            member("used", number_json(resources.resources_consumed.cpu_instructions)),
        ],
    );
    assert(data.model()->Object_0 =~= budget_event_json(resources)->Object_0[0].1->Object_0);
    let value = JsonValue::Object(
        vec![member("data", data), member("type", text_json(owned("budget")))],
    );
    assert(value.model()->Object_0 =~= budget_event_json(resources)->Object_0);
    value
}

/// The resources of a transaction and the status of one of its operations, as JSON.
pub fn build_resource_json(resources: TransactionResources, is_success: bool) -> (value: JsonValue)
    ensures
        value.model() == resource_json(resources, is_success),
{
    let mut events: Vec<JsonValue> = Vec::new();
    if resources.is_budget_error {
        events.push(build_budget_event(resources));
    }
    let events_json = JsonValue::Array(events);
    assert(events_json.model()->Array_0 =~= resource_json(
        resources,
        is_success,
    )->Object_0[0].1->Array_0);
    let status = if is_success {
        owned("SUCCESS")
    } else {
        owned("FAILED")
    };
    let value = JsonValue::Object(
        vec![
            member("diagnosticEvents", events_json),
            member("resourcesAllocated", build_usage(resources.resources_allocated)),
            member("resourcesConsumed", build_usage(resources.resources_consumed)),
            member("status", text_json(status)),
        ],
    );
    assert(value.model()->Object_0 =~= resource_json(resources, is_success)->Object_0);
    value
}

/// The member called `key`, or null where there is none.
fn member_or_null(tx_data: &JsonValue, key: &str) -> (value: JsonValue)
    ensures
        value.model() == value_or_null(field(tx_data.model(), key@)),
{
    match tx_data.get(key) {
        Some(value) => value.clone(),
        None => JsonValue::Null,
    }
}

/// The diagnostic events of one operation as JSON, with what tells the transaction.
pub fn build_diagnostic_json(events: &Vec<DiagnosticEventData>, tx_data: &JsonValue) -> (value:
    JsonValue)
    ensures
        value.model() == diagnostic_json(diagnostic_models(events@), tx_data.model()),
{
    let ghost models = diagnostic_models(events@);
    let mut encoded: Vec<JsonValue> = Vec::new();
    let mut i: usize = 0;
    assert(json_models(encoded@) =~= encodings(models.take(0)));
    while i < events.len()
        invariant
            i <= events@.len(),
            models == diagnostic_models(events@),
            json_models(encoded@) == encodings(models.take(i as int)),
        decreases events@.len() - i,
    {
        let ghost before = encoded@;
        let ghost next = models.take(i + 1);
        assert(next.drop_last() =~= models.take(i as int));
        assert(next.last() == events@[i as int]@);
        if let Some(text) = &events[i].xdr {
            encoded.push(JsonValue::String(owned(text.as_str())));
            assert(json_models(encoded@) =~= json_models(before).push(JsonModel::String(text@)));
        }
        i += 1;
    }
    assert(models.take(models.len() as int) =~= models);
    let encodings_json = JsonValue::Array(encoded);
    assert(encodings_json.model()->Array_0 =~= encodings(models));
    let value = JsonValue::Object(
        vec![
            member("diagnosticEventsXdr", encodings_json),
            member("hash", member_or_null(tx_data, "hash")),
            member("ledger", member_or_null(tx_data, "ledger")),
        ],
    );
    assert(value.model()->Object_0 =~= diagnostic_json(models, tx_data.model())->Object_0);
    value
}

/// The ledger that a transaction is in.
fn ledger_sequence(tx_data: &JsonValue) -> (ledger: u32)
    ensures
        ledger == ledger_of(tx_data.model()),
{
    match tx_data.get("ledger") {
        Some(JsonValue::Number(JsonNumber::PosInt(n))) => (*n % 0x1_0000_0000) as u32,
        _ => 0,
    }
}

/// The hash of a transaction.
fn transaction_hash(tx_data: &JsonValue) -> (hash: String)
    ensures
        hash@ == text_or(string_of(field(tx_data.model(), "hash"@)), "unknown"@),
{
    match tx_data.get("hash") {
        Some(value) => match value.as_str() {
            Some(text) => owned(text),
            None => owned("unknown"),
        },
        None => owned("unknown"),
    }
}

/// A text, or `fallback` where it is absent.
fn owned_or(text: Option<String>, fallback: &str) -> (value: String)
    ensures
        value@ == text_or(optional_text(text), fallback@),
{
    match text {
        Some(text) => text,
        None => owned(fallback),
    }
}

/// The word for an operation, with its number.
fn operation_label(index: usize) -> (text: String)
    requires
        index < usize::MAX,
    ensures
        text@ == "Operation "@ + decimal((index + 1) as nat),
{
    let mut text = owned("Operation ");
    append_decimal(&mut text, (index + 1) as u64);
    text
}

/// The contract that an operation's events are of.
pub fn attribute(
    events: &Vec<ContractEventData>,
    function_name: &Option<String>,
    index: usize,
) -> (attribution: Option<FailureAttribution>)
    requires
        index < usize::MAX,
    ensures
        match attribution {
            Some(attribution) => attribution_of(
                contract_event_models(events@),
                optional_text(*function_name),
                index as int,
            ) == Some(attribution@),
            None => attribution_of(
                contract_event_models(events@),
                optional_text(*function_name),
                index as int,
            ) is None,
        },
{
    let ghost models = contract_event_models(events@);
    if events.len() == 0 {
        return None;
    }
    let mut contract_address = String::new();
    let mut i: usize = 0;
    assert(models.skip(0) =~= models);
    assert(contract_address@ =~= Seq::empty());
    while i < events.len()
        invariant_except_break
            i <= events@.len(),
            models == contract_event_models(events@),
            first_contract(models) == first_contract(models.skip(i as int)),
            contract_address@ == Seq::<char>::empty(),
        ensures
            contract_address@ == match first_contract(models) {
                Some(id) => hex_of(id),
                None => Seq::empty(),
            },
        decreases events@.len() - i,
    {
        assert(models.skip(i as int)[0] == events@[i as int]@);
        assert(models.skip(i as int).drop_first() =~= models.skip(i + 1));
        if let Some(id) = &events[i].contract_id {
            contract_address = encode_hex(id.as_slice());
            break;
        }
        i += 1;
    }
    Some(
        FailureAttribution {
            contract_address,
            function_name: copy_optional(function_name),
            call_depth: 0,
            origin_description: operation_label(index),
        },
    )
}

/// The report on one operation.
pub fn report_operation<F: Copy>(
    tx_data: &JsonValue,
    analysis: &TransactionAnalysis<F>,
    info: OperationResultInfo,
    index: usize,
    count: usize,
    diagnostic_events: &Vec<DiagnosticEventData>,
    contract_events: &Vec<ContractEventData>,
) -> (report: OperationReport<F>)
    requires
        index < count,
    ensures
        report@ == report_of(
            tx_data.model(),
            *analysis,
            info@,
            index,
            count,
            diagnostic_models(diagnostic_events@),
            contract_event_models(contract_events@),
        ),
{
    let resources = analysis.resources;
    let mut summary = operation_label(index);
    append(
        &mut summary,
        if info.is_success {
            " succeeded"
        } else {
            " failed"
        },
    );
    let diagnostic_input = if diagnostic_events.len() == 0 {
        None
    } else {
        Some(build_diagnostic_json(diagnostic_events, tx_data))
    };
    let cross_contract_attribution = attribute(contract_events, &info.function_name, index);
    OperationReport {
        error_category: owned_or(info.error_category, "unknown"),
        error_code: 0,
        error_name: owned_or(info.error_name, "Unknown"),
        summary,
        transaction_context: TransactionContext {
            tx_hash: transaction_hash(tx_data),
            ledger_sequence: ledger_sequence(tx_data),
            function_name: info.function_name,
            arguments: info.arguments,
            return_value: info.return_value,
            fee: analysis.fee,
            resources: ResourceSummary {
                cpu_instructions_used: resources.resources_consumed.cpu_instructions,
                cpu_instructions_limit: resources.resources_allocated.cpu_instructions,
                memory_bytes_used: resources.resources_consumed.memory_bytes,
                memory_bytes_limit: resources.resources_allocated.memory_bytes,
                read_bytes: resources.resources_consumed.read_bytes,
                read_bytes_limit: resources.resources_allocated.read_bytes,
                write_bytes: resources.resources_consumed.write_bytes,
            },
            operation_index: Some(index),
            operation_count: Some(count),
        },
        diagnostic_input,
        resource_input: build_resource_json(resources, info.is_success),
        cross_contract_attribution,
    }
}

/// The share of one operation; nothing where there is no share for it.
pub open spec fn share_at<E>(parts: Seq<Seq<E>>, index: int) -> Seq<E> {
    if 0 <= index < parts.len() {
        parts[index]
    } else {
        Seq::empty()
    }
}

/// The model of events that may be absent.
pub open spec fn optional_meta(meta: Option<SorobanMetaData>) -> Option<MetaModel> {
    match meta {
        Some(meta) => Some(meta@),
        None => None,
    }
}

/// The diagnostic events of a transaction.
pub open spec fn diagnostic_events_of(meta: Option<MetaModel>) -> Seq<DiagnosticEventModel> {
    match meta {
        Some(meta) => meta.diagnostic_events,
        None => Seq::empty(),
    }
}

/// The contract events of a transaction.
pub open spec fn contract_events_of(meta: Option<MetaModel>) -> Seq<ContractEventModel> {
    match meta {
        Some(meta) => meta.contract_events,
        None => Seq::empty(),
    }
}

/// The reports on the operations of a transaction.
pub open spec fn reports_of<F>(
    tx_data: JsonModel,
    analysis: TransactionAnalysis<F>,
    envelope: EnvelopeModel,
    outcomes: Seq<OperationOutcome>,
    meta: Option<MetaModel>,
) -> Seq<ReportModel<F>> {
    let count = operation_count(envelope);
    let diagnostic_events = diagnostic_events_of(meta);
    let contract_events = contract_events_of(meta);
    Seq::new(
        count,
        |i: int|
            report_of(
                tx_data,
                analysis,
                info_of(call_at(envelope, i), outcome_at(outcomes, i)),
                i as usize,
                count as usize,
                share_at(shares(diagnostic_events, diagnostic_marks(diagnostic_events), count), i),
                share_at(shares(contract_events, contract_marks(contract_events), count), i),
            ),
    )
}

/// What is made of a transaction, where `envelope`, `result` and `meta` are what decoding
/// its parts gave: nothing for a part that is missing.
pub open spec fn decoded_parts<F>(
    tx_data: JsonModel,
    analysis: TransactionAnalysis<F>,
    envelope: Option<Result<EnvelopeModel, Seq<char>>>,
    result: Option<Result<ResultModel, Seq<char>>>,
    meta: Option<Result<Option<MetaModel>, Seq<char>>>,
) -> Result<OutcomeModel<F>, GratErrorModel> {
    match envelope {
        None => Err(GratErrorModel::Internal("Missing envelopeXdr in transaction data"@)),
        Some(Err(error)) => Err(
            GratErrorModel::Internal("Failed to decode envelope XDR: "@ + error),
        ),
        Some(Ok(envelope)) => match result {
            None => Err(GratErrorModel::Internal("Missing resultXdr in transaction data"@)),
            Some(Err(error)) => Err(
                GratErrorModel::Internal("Failed to decode result XDR: "@ + error),
            ),
            Some(Ok(ResultModel::FeeBumpInnerSuccess)) => Ok(OutcomeModel::WholeTransaction),
            Some(Ok(ResultModel::Other)) => Err(GratErrorModel::NotSorobanTransaction),
            Some(Ok(ResultModel::Success(outcomes))) => decoded_operations(
                tx_data,
                analysis,
                envelope,
                outcomes,
                meta,
            ),
            Some(Ok(ResultModel::Failed(outcomes))) => decoded_operations(
                tx_data,
                analysis,
                envelope,
                outcomes,
                meta,
            ),
        },
    }
}

/// What is made of a transaction with outcomes of its operations.
pub open spec fn decoded_operations<F>(
    tx_data: JsonModel,
    analysis: TransactionAnalysis<F>,
    envelope: EnvelopeModel,
    outcomes: Seq<OperationOutcome>,
    meta: Option<Result<Option<MetaModel>, Seq<char>>>,
) -> Result<OutcomeModel<F>, GratErrorModel> {
    match meta {
        None => Ok(
            OutcomeModel::Operations(reports_of(tx_data, analysis, envelope, outcomes, None)),
        ),
        Some(Ok(meta)) => Ok(
            OutcomeModel::Operations(reports_of(tx_data, analysis, envelope, outcomes, meta)),
        ),
        Some(Err(error)) => Err(
            GratErrorModel::Internal("Failed to decode meta XDR: "@ + error),
        ),
    }
}

/// What is made of a transaction.
pub open spec fn decoded_transaction<F>(
    tx_data: JsonModel,
    analysis: TransactionAnalysis<F>,
) -> Result<OutcomeModel<F>, GratErrorModel> {
    decoded_parts(
        tx_data,
        analysis,
        match string_of(field(tx_data, "envelopeXdr"@)) {
            Some(text) => Some(envelope_in(text)),
            None => None,
        },
        match string_of(field(tx_data, "resultXdr"@)) {
            Some(text) => Some(result_in(text)),
            None => None,
        },
        match string_of(field(tx_data, "resultMetaXdr"@)) {
            Some(text) => Some(meta_in(text)),
            None => None,
        },
    )
}

/// The model of what decoding a transaction gave.
pub open spec fn outcome_result<F>(result: GratResult<TransactionOutcome<F>>) -> Result<
    OutcomeModel<F>,
    GratErrorModel,
> {
    match result {
        Ok(outcome) => Ok(outcome@),
        Err(error) => Err(error@),
    }
}

/// The reports on the operations of a transaction.
pub fn report_operations<F: Copy>(
    tx_data: &JsonValue,
    analysis: &TransactionAnalysis<F>,
    envelope: &EnvelopeData,
    outcomes: &Vec<OperationOutcome>,
    meta: Option<SorobanMetaData>,
) -> (reports: Vec<OperationReport<F>>)
    ensures
        report_models(reports@) == reports_of(
            tx_data.model(),
            *analysis,
            envelope@,
            outcomes@,
            optional_meta(meta),
        ),
{
    let ghost meta_model = optional_meta(meta);
    let num_ops: usize = match envelope {
        EnvelopeData::V0 => 1,
        EnvelopeData::Operations(calls) => calls.len(),
    };
    let (all_diagnostic_events, all_contract_events) = match meta {
        Some(meta) => (meta.diagnostic_events, meta.contract_events),
        None => (Vec::new(), Vec::new()),
    };
    let ghost diagnostic_events = diagnostic_events_of(meta_model);
    let ghost contract_events = contract_events_of(meta_model);
    let ghost count = num_ops as nat;
    assert(diagnostic_models(all_diagnostic_events@) =~= diagnostic_events);
    assert(contract_event_models(all_contract_events@) =~= contract_events);
    proof {
        assert forall|i: int| 0 <= i < count implies diagnostic_models(
            share_at(
                shares(all_diagnostic_events@, diagnostic_marks(diagnostic_events), count),
                i,
            ),
        ) == #[trigger] share_at(
            shares(diagnostic_events, diagnostic_marks(diagnostic_events), count),
            i,
        ) by {
            diagnostic_share_models(all_diagnostic_events@, count, i);
        }
        assert forall|i: int| 0 <= i < count implies contract_event_models(
            share_at(shares(all_contract_events@, contract_marks(contract_events), count), i),
        ) == #[trigger] share_at(
            shares(contract_events, contract_marks(contract_events), count),
            i,
        ) by {
            contract_share_models(all_contract_events@, count, i);
        }
    }
    let infos = decode_operation_results(envelope, outcomes, num_ops);
    assert(info_models(infos@).len() == num_ops);
    let event_partitions = partition_events_by_operation(all_diagnostic_events, num_ops);
    let contract_partitions = partition_contract_events_by_operation(all_contract_events, num_ops);
    let no_events: Vec<DiagnosticEventData> = Vec::new();
    let no_contract_events: Vec<ContractEventData> = Vec::new();
    let mut reports: Vec<OperationReport<F>> = Vec::new();
    let mut at: usize = 0;
    let ghost wanted = reports_of(tx_data.model(), *analysis, envelope@, outcomes@, meta_model);
    for info in items: infos
        invariant
            items.seq() == infos@,
            at == items.index(),
            reports@.len() == at,
            infos@.len() == num_ops,
            count == num_ops,
            count == operation_count(envelope@),
            no_events@ == Seq::<DiagnosticEventData>::empty(),
            no_contract_events@ == Seq::<ContractEventData>::empty(),
            info_models(infos@) == Seq::new(
                count,
                |i: int| info_of(call_at(envelope@, i), outcome_at(outcomes@, i)),
            ),
            diagnostic_events == diagnostic_events_of(meta_model),
            contract_events == contract_events_of(meta_model),
            share_views(event_partitions@) == shares(
                all_diagnostic_events@,
                diagnostic_marks(diagnostic_events),
                count,
            ),
            share_views(contract_partitions@) == shares(
                all_contract_events@,
                contract_marks(contract_events),
                count,
            ),
            forall|i: int|
                0 <= i < count ==> diagnostic_models(
                    share_at(
                        shares(all_diagnostic_events@, diagnostic_marks(diagnostic_events), count),
                        i,
                    ),
                ) == #[trigger] share_at(
                    shares(diagnostic_events, diagnostic_marks(diagnostic_events), count),
                    i,
                ),
            forall|i: int|
                0 <= i < count ==> contract_event_models(
                    share_at(
                        shares(all_contract_events@, contract_marks(contract_events), count),
                        i,
                    ),
                ) == #[trigger] share_at(
                    shares(contract_events, contract_marks(contract_events), count),
                    i,
                ),
            wanted == reports_of(tx_data.model(), *analysis, envelope@, outcomes@, meta_model),
            forall|i: int| 0 <= i < at ==> (#[trigger] reports@[i])@ == wanted[i],
    {
        let op_events = if at < event_partitions.len() {
            &event_partitions[at]
        } else {
            &no_events
        };
        let op_contract_events = if at < contract_partitions.len() {
            &contract_partitions[at]
        } else {
            &no_contract_events
        };
        proof {
            assert(info_models(infos@)[at as int] == info@);
            assert(op_events@ =~= share_at(share_views(event_partitions@), at as int));
            assert(op_contract_events@ =~= share_at(share_views(contract_partitions@), at as int));
            let share = share_at(
                shares(diagnostic_events, diagnostic_marks(diagnostic_events), count),
                at as int,
            );
            let contract_share = share_at(
                shares(contract_events, contract_marks(contract_events), count),
                at as int,
            );
            assert(diagnostic_models(op_events@) == share);
            assert(contract_event_models(op_contract_events@) == contract_share);
        }
        reports.push(
            report_operation(
                tx_data,
                analysis,
                info,
                at,
                num_ops,
                op_events,
                op_contract_events,
            ),
        );
        at += 1;
    }
    assert(report_models(reports@) =~= wanted);
    reports
}

/// The share of an operation in the models of the events is the models of its share.
proof fn diagnostic_share_models(events: Seq<DiagnosticEventData>, count: nat, index: int)
    requires
        0 <= index < count,
    ensures
        diagnostic_models(
            share_at(
                shares(events, diagnostic_marks(diagnostic_models(events)), count),
                index,
            ),
        ) == share_at(
            shares(
                diagnostic_models(events),
                diagnostic_marks(diagnostic_models(events)),
                count,
            ),
            index,
        ),
{
    let marks = diagnostic_marks(diagnostic_models(events));
    let model = |event: DiagnosticEventData| event@;
    assert(events.map_values(model) =~= diagnostic_models(events));
    if count > 1 && events.len() > 0 {
        events_of_mapped(events, model, marks, count, index);
        assert(diagnostic_models(events_of(events, marks, count, index)) =~= events_of(
            events,
            marks,
            count,
            index,
        ).map_values(model));
    } else if index > 0 {
        assert(diagnostic_models(Seq::<DiagnosticEventData>::empty()) =~= Seq::empty());
    }
}

/// The share of an operation in the models of the events is the models of its share.
proof fn contract_share_models(events: Seq<ContractEventData>, count: nat, index: int)
    requires
        0 <= index < count,
    ensures
        contract_event_models(
            share_at(
                shares(events, contract_marks(contract_event_models(events)), count),
                index,
            ),
        ) == share_at(
            shares(
                contract_event_models(events),
                contract_marks(contract_event_models(events)),
                count,
            ),
            index,
        ),
{
    let marks = contract_marks(contract_event_models(events));
    let model = |event: ContractEventData| event@;
    assert(events.map_values(model) =~= contract_event_models(events));
    if count > 1 && events.len() > 0 {
        events_of_mapped(events, model, marks, count, index);
        assert(contract_event_models(events_of(events, marks, count, index)) =~= events_of(
            events,
            marks,
            count,
            index,
        ).map_values(model));
    } else if index > 0 {
        assert(contract_event_models(Seq::<ContractEventData>::empty()) =~= Seq::empty());
    }
}

/// The model of what decoding a transaction's operations gave; nothing where they are
/// missing.
pub open spec fn envelope_part(part: Option<Result<EnvelopeData, String>>) -> Option<
    Result<EnvelopeModel, Seq<char>>,
> {
    match part {
        Some(read) => Some(envelope_result(read)),
        None => None,
    }
}

/// The model of what decoding a transaction's result gave; nothing where it is missing.
pub open spec fn result_part(part: Option<Result<ResultData, String>>) -> Option<
    Result<ResultModel, Seq<char>>,
> {
    match part {
        Some(read) => Some(transaction_result(read)),
        None => None,
    }
}

/// The model of what decoding a transaction's events gave; nothing where they are missing.
pub open spec fn meta_part(part: Option<Result<Option<SorobanMetaData>, String>>) -> Option<
    Result<Option<MetaModel>, Seq<char>>,
> {
    match part {
        Some(read) => Some(meta_result(read)),
        None => None,
    }
}

/// An error with a message in two parts.
fn internal(message: &str, detail: &str) -> (error: GratError)
    ensures
        error@ == GratErrorModel::Internal(message@ + detail@),
{
    let mut text = owned(message);
    append(&mut text, detail);
    GratError::Internal(text)
}

/// What is made of a transaction, where `envelope`, `result` and `meta` are what decoding
/// its parts gave: nothing for a part that is missing.
pub fn assemble_transaction<F: Copy>(
    tx_data: &JsonValue,
    analysis: &TransactionAnalysis<F>,
    envelope: Option<Result<EnvelopeData, String>>,
    result: Option<Result<ResultData, String>>,
    meta: Option<Result<Option<SorobanMetaData>, String>>,
) -> (outcome: GratResult<TransactionOutcome<F>>)
    ensures
        outcome_result(outcome) == decoded_parts(
            tx_data.model(),
            *analysis,
            envelope_part(envelope),
            result_part(result),
            meta_part(meta),
        ),
{
    let envelope = match envelope {
        None => {
            return Err(GratError::Internal(owned("Missing envelopeXdr in transaction data")));
        },
        Some(Err(error)) => {
            return Err(internal("Failed to decode envelope XDR: ", error.as_str()));
        },
        Some(Ok(envelope)) => envelope,
    };
    let outcomes = match result {
        None => {
            return Err(GratError::Internal(owned("Missing resultXdr in transaction data")));
        },
        Some(Err(error)) => {
            return Err(internal("Failed to decode result XDR: ", error.as_str()));
        },
        Some(Ok(ResultData::FeeBumpInnerSuccess)) => {
            return Ok(TransactionOutcome::WholeTransaction);
        },
        Some(Ok(ResultData::Other)) => {
            return Err(GratError::NotSorobanTransaction);
        },
        Some(Ok(ResultData::Success(outcomes))) => outcomes,
        Some(Ok(ResultData::Failed(outcomes))) => outcomes,
    };
    let soroban_meta = match meta {
        None => None,
        Some(Ok(meta)) => meta,
        Some(Err(error)) => {
            return Err(internal("Failed to decode meta XDR: ", error.as_str()));
        },
    };
    Ok(
        TransactionOutcome::Operations(
            report_operations(tx_data, analysis, &envelope, &outcomes, soroban_meta),
        ),
    )
}

/// Reports on each operation of a transaction.
pub struct MultiOpDecoder;

/// The text of the member called `key`, where it is a string.
fn text_member<'a>(tx_data: &'a JsonValue, key: &str) -> (text: Option<&'a str>)
    ensures
        match text {
            Some(text) => string_of(field(tx_data.model(), key@)) == Some(text@),
            None => string_of(field(tx_data.model(), key@)) is None,
        },
{
    match tx_data.get(key) {
        Some(value) => value.as_str(),
        None => None,
    }
}

impl MultiOpDecoder {
    /// A decoder.
    pub fn new() -> (decoder: MultiOpDecoder)
        ensures
            decoder == MultiOpDecoder,
    {
        MultiOpDecoder
    }

    /// What is made of the transaction that `tx_data` describes.
    ///
    /// `analysis` is what is known of the transaction as a whole. A fee bump whose inner
    /// transaction succeeded is reported on as a whole; otherwise each operation has a
    /// report of its own.
    pub fn decode_transaction<F: Copy>(
        &self,
        tx_data: &JsonValue,
        analysis: &TransactionAnalysis<F>,
    ) -> (outcome: GratResult<TransactionOutcome<F>>)
        ensures
            outcome_result(outcome) == decoded_transaction(tx_data.model(), *analysis),
    {
        let envelope = match text_member(tx_data, "envelopeXdr") {
            Some(text) => Some(read_envelope(text)),
            None => None,
        };
        let result = match text_member(tx_data, "resultXdr") {
            Some(text) => Some(read_result(text)),
            None => None,
        };
        let meta = match text_member(tx_data, "resultMetaXdr") {
            Some(text) => Some(read_meta(text)),
            None => None,
        };
        assemble_transaction(tx_data, analysis, envelope, result, meta)
    }
}

/// The report with the given index; all reports where no index is given or none has it.
pub open spec fn filtered<T>(reports: Seq<T>, op_index: Option<usize>) -> Seq<T> {
    match op_index {
        Some(index) if index < reports.len() => seq![reports[index as int]],
        _ => reports,
    }
}

/// What is made of a transaction, of which the report on one operation is wanted.
pub open spec fn filtered_outcome<F>(
    outcome: Result<OutcomeModel<F>, GratErrorModel>,
    op_index: Option<usize>,
) -> Result<OutcomeModel<F>, GratErrorModel> {
    match outcome {
        Ok(OutcomeModel::Operations(reports)) => Ok(
            OutcomeModel::Operations(filtered(reports, op_index)),
        ),
        _ => outcome,
    }
}

/// The report with the given index; all reports where no index is given or none has it.
pub fn filter_reports<T>(reports: Vec<T>, op_index: Option<usize>) -> (kept: Vec<T>)
    ensures
        kept@ == filtered(reports@, op_index),
{
    let ghost all = reports@;
    let mut reports = reports;
    match op_index {
        Some(index) => if index < reports.len() {
            let mut kept: Vec<T> = Vec::new();
            kept.push(reports.swap_remove(index));
            assert(kept@ =~= filtered(all, op_index));
            kept
        } else {
            reports
        },
        None => reports,
    }
}

/// What is made of the transaction that `tx_data` describes, of which the report on the
/// operation `op_index` is wanted.
///
/// A transaction that is reported on as a whole has one report, whatever the index.
pub fn decode_transaction_with_op_filter<F: Copy>(
    tx_data: &JsonValue,
    analysis: &TransactionAnalysis<F>,
    op_index: Option<usize>,
) -> (outcome: GratResult<TransactionOutcome<F>>)
    ensures
        outcome_result(outcome) == filtered_outcome(
            decoded_transaction(tx_data.model(), *analysis),
            op_index,
        ),
{
    let decoder = MultiOpDecoder::new();
    match decoder.decode_transaction(tx_data, analysis) {
        Ok(TransactionOutcome::Operations(reports)) => {
            let kept = filter_reports(reports, op_index);
            assert(report_models(kept@) =~= filtered(report_models(reports@), op_index));
            Ok(TransactionOutcome::Operations(kept))
        },
        Ok(TransactionOutcome::WholeTransaction) => Ok(TransactionOutcome::WholeTransaction),
        Err(error) => Err(error),
    }
}

/// Each operation has one report, in order, and each report says which operation of how
/// many it is about.
pub proof fn one_report_per_operation<F>(
    tx_data: JsonModel,
    analysis: TransactionAnalysis<F>,
    envelope: EnvelopeModel,
    outcomes: Seq<OperationOutcome>,
    meta: Option<MetaModel>,
)
    requires
        operation_count(envelope) <= usize::MAX,
    ensures
        reports_of(tx_data, analysis, envelope, outcomes, meta).len() == operation_count(envelope),
        forall|i: int|
            #![trigger reports_of(tx_data, analysis, envelope, outcomes, meta)[i]]
            0 <= i < operation_count(envelope) ==> {
                let context = reports_of(
                    tx_data,
                    analysis,
                    envelope,
                    outcomes,
                    meta,
                )[i].transaction_context;
                context.operation_index == Some(i as usize) && context.operation_count == Some(
                    operation_count(envelope) as usize,
                )
            },
{
}

/// A report has the category and the name of its operation's failure. They are unknown
/// where the operation succeeded or has no outcome.
pub proof fn reports_tell_failure<F>(
    tx_data: JsonModel,
    analysis: TransactionAnalysis<F>,
    envelope: EnvelopeModel,
    outcomes: Seq<OperationOutcome>,
    meta: Option<MetaModel>,
    index: int,
)
    requires
        0 <= index < operation_count(envelope),
    ensures
        ({
            let report = reports_of(tx_data, analysis, envelope, outcomes, meta)[index];
            &&& outcome_at(outcomes, index) is Success ==> report.error_category == "unknown"@
                && report.error_name == "Unknown"@
            &&& failure_of(outcome_at(outcomes, index)) matches Some((category, name))
                ==> report.error_category == category && report.error_name == name
        }),
{
}

/// What an index selects is that operation's report and no other.
pub proof fn filter_selects_the_operation<F>(
    tx_data: JsonModel,
    analysis: TransactionAnalysis<F>,
    envelope: EnvelopeModel,
    outcomes: Seq<OperationOutcome>,
    meta: Option<MetaModel>,
    index: usize,
)
    requires
        operation_count(envelope) <= usize::MAX,
        index < operation_count(envelope),
    ensures
        ({
            let kept = filtered(
                reports_of(tx_data, analysis, envelope, outcomes, meta),
                Some(index),
            );
            kept.len() == 1 && kept[0].transaction_context.operation_index == Some(index)
        }),
{
}

} // verus!
