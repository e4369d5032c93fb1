//! What holds of the reports on a transaction, field by field.
//!
//! The laws speak of the fields of the reports and of what the transaction is given by.

use vstd::prelude::*;

use crate::decode::multi_op_decoder::{
    attribution_of, call_at, contract_events_of, decoded_parts, decoded_transaction,
    diagnostic_events_of, diagnostic_json, encodings, filtered, filtered_outcome, first_contract,
    info_models, info_of, optional_call, optional_meta, outcome_at, outcome_result, reports_of,
    resource_json, share_at, OperationResultInfo,
};
use crate::decode::partition::{contract_marks, diagnostic_marks, shares};
use crate::decode::report::{
    report_models, FailureAttribution, OperationReport, ResourceUsage, TransactionAnalysis,
    TransactionContext, TransactionOutcome, TransactionResources,
};
use crate::decode::xdr::{
    call_models, contract_event_models, diagnostic_models, envelope_in, envelope_result, meta_in,
    meta_result, optional_texts, result_in, transaction_result, CallModel, ContractEventData,
    ContractEventModel, DiagnosticEventData, DiagnosticEventModel, EnvelopeData, EnvelopeModel,
    MetaModel, OperationCall, OperationOutcome, ResultData, ResultModel, SorobanMetaData,
};
use crate::error::{GratError, GratResult};
use crate::hex_text::hex_of;
use crate::json::{field, first_member_is_looked_up, JsonModel, JsonValue, NumberModel};
use crate::text::{decimal, optional_text, texts};

verus! {

/// What an operation calls, where it is known.
pub open spec fn called(envelope: EnvelopeData, index: int) -> Option<OperationCall> {
    match envelope {
        EnvelopeData::V0 => None,
        EnvelopeData::Operations(calls) => if 0 <= index < calls@.len() {
            Some(calls@[index])
        } else {
            None
        },
    }
}

/// What came of an operation: a success where nothing is said of it.
pub open spec fn came_of(outcomes: Seq<OperationOutcome>, index: int) -> OperationOutcome {
    if 0 <= index < outcomes.len() {
        outcomes[index]
    } else {
        OperationOutcome::Success
    }
}

/// How many operations are reported on.
pub open spec fn operations_in(envelope: EnvelopeData) -> nat {
    match envelope {
        EnvelopeData::V0 => 1,
        EnvelopeData::Operations(calls) => calls@.len(),
    }
}

/// Whether `own` is the given text, or absent as that is.
pub open spec fn same_optional_text(own: Option<String>, text: Option<String>) -> bool {
    match (own, text) {
        (Some(own), Some(text)) => own@ == text@,
        (None, None) => true,
        _ => false,
    }
}

/// Every operation is reported on, in order, and each report says which operation it is
/// about, whether it succeeded, and otherwise how it failed.
pub proof fn reports_say_what_came_of_the_operation<F>(
    tx_data: JsonValue,
    analysis: TransactionAnalysis<F>,
    envelope: EnvelopeData,
    outcomes: Seq<OperationOutcome>,
    meta: Option<SorobanMetaData>,
    reports: Seq<OperationReport<F>>,
    i: int,
)
    requires
        report_models(reports) == reports_of(
            tx_data.model(),
            analysis,
            envelope@,
            outcomes,
            optional_meta(meta),
        ),
        0 <= i < operations_in(envelope) <= usize::MAX,
    ensures
        reports.len() == operations_in(envelope),
        reports[i].error_code == 0,
        reports[i].transaction_context.operation_index == Some(i as usize),
        reports[i].transaction_context.operation_count == Some(operations_in(envelope) as usize),
        match came_of(outcomes, i) {
            OperationOutcome::Success => reports[i].error_category@ == "unknown"@
                && reports[i].error_name@ == "Unknown"@ && reports[i].summary@ == "Operation "@
                + decimal((i + 1) as nat) + " succeeded"@,
            OperationOutcome::Trapped => reports[i].error_category@ == "Contract"@
                && reports[i].error_name@ == "HostError"@,
            OperationOutcome::ResourceLimitExceeded => reports[i].error_category@ == "Budget"@
                && reports[i].error_name@ == "HostError"@,
            OperationOutcome::EntryArchived => reports[i].error_category@ == "Storage"@
                && reports[i].error_name@ == "HostError"@,
            OperationOutcome::Malformed => reports[i].error_category@ == "Context"@
                && reports[i].error_name@ == "HostError"@,
            OperationOutcome::InsufficientRefundableFee => reports[i].error_category@ == "Context"@
                && reports[i].error_name@ == "HostError"@,
            OperationOutcome::Other => reports[i].error_category@ == "Unknown"@
                && reports[i].error_name@ == "NonInvokeHostFunctionOperation"@,
        },
        !(came_of(outcomes, i) is Success) ==> reports[i].summary@ == "Operation "@ + decimal(
            (i + 1) as nat,
        ) + " failed"@,
{
    assert(report_models(reports).len() == reports.len());
    assert(report_models(reports)[i] == reports[i]@);
}

/// A report has the function that its operation calls, where the operation calls a
/// contract; a function without a name is left out where the outcome is not that of a
/// host function. It has the arguments, one for one, where the operation succeeded.
pub proof fn reports_say_what_is_called<F>(
    tx_data: JsonValue,
    analysis: TransactionAnalysis<F>,
    envelope: EnvelopeData,
    outcomes: Seq<OperationOutcome>,
    meta: Option<SorobanMetaData>,
    reports: Seq<OperationReport<F>>,
    i: int,
)
    requires
        report_models(reports) == reports_of(
            tx_data.model(),
            analysis,
            envelope@,
            outcomes,
            optional_meta(meta),
        ),
        0 <= i < operations_in(envelope) <= usize::MAX,
    ensures
        reports.len() == operations_in(envelope),
        ({
            let context = reports[i].transaction_context;
            match called(envelope, i) {
                Some(OperationCall::InvokeContract { function_name, arguments }) => {
                    &&& if came_of(outcomes, i) is Other && function_name@.len() == 0 {
                        context.function_name is None
                    } else {
                        context.function_name matches Some(name) && name@ == function_name@
                    }
                    &&& if came_of(outcomes, i) is Success {
                        context.arguments@.len() == arguments@.len() && forall|j: int|
                            0 <= j < arguments@.len() ==> (#[trigger] context.arguments@[j])@
                                == arguments@[j]@
                    } else {
                        context.arguments@.len() == 0
                    }
                },
                _ => context.function_name is None && context.arguments@.len() == 0,
            }
        }),
        reports[i].transaction_context.return_value is None,
{
    assert(report_models(reports).len() == reports.len());
    assert(report_models(reports)[i] == reports[i]@);
    let context = reports[i].transaction_context;
    let shown = context@.arguments;
    assert(shown.len() == context.arguments@.len());
    if let EnvelopeData::Operations(calls) = envelope {
        assert(call_models(calls@)[i] == calls@[i]@);
        if let OperationCall::InvokeContract { function_name, arguments } = calls@[i] {
            if function_name@.len() == 0 {
                assert(function_name@ =~= Seq::empty());
            }
            if came_of(outcomes, i) is Success {
                assert(shown == texts(arguments@));
                assert forall|j: int| 0 <= j < arguments@.len() implies (
                #[trigger] context.arguments@[j])@ == arguments@[j]@ by {
                    assert(shown[j] == context.arguments@[j]@);
                    assert(texts(arguments@)[j] == arguments@[j]@);
                }
            }
        }
    }
}

/// A report has the transaction's hash and ledger, as far as they are given, its fee, and
/// what it used and was allowed of each resource.
pub proof fn reports_say_which_transaction<F>(
    tx_data: JsonValue,
    analysis: TransactionAnalysis<F>,
    envelope: EnvelopeData,
    outcomes: Seq<OperationOutcome>,
    meta: Option<SorobanMetaData>,
    reports: Seq<OperationReport<F>>,
    i: int,
)
    requires
        report_models(reports) == reports_of(
            tx_data.model(),
            analysis,
            envelope@,
            outcomes,
            optional_meta(meta),
        ),
        0 <= i < operations_in(envelope) <= usize::MAX,
    ensures
        reports.len() == operations_in(envelope),
        ({
            let context = reports[i].transaction_context;
            let used = analysis.resources.resources_consumed;
            let allowed = analysis.resources.resources_allocated;
            &&& match field(tx_data.model(), "hash"@) {
                Some(JsonModel::String(hash)) => context.tx_hash@ == hash,
                _ => context.tx_hash@ == "unknown"@,
            }
            &&& match field(tx_data.model(), "ledger"@) {
                Some(JsonModel::Number(NumberModel::PosInt(n))) => context.ledger_sequence
                    == n as int % 0x1_0000_0000,
                _ => context.ledger_sequence == 0,
            }
            &&& context.fee == analysis.fee
            &&& context.resources.cpu_instructions_used == used.cpu_instructions
            &&& context.resources.cpu_instructions_limit == allowed.cpu_instructions
            &&& context.resources.memory_bytes_used == used.memory_bytes
            &&& context.resources.memory_bytes_limit == allowed.memory_bytes
            &&& context.resources.read_bytes == used.read_bytes
            &&& context.resources.read_bytes_limit == allowed.read_bytes
            &&& context.resources.write_bytes == used.write_bytes
        }),
{
    assert(report_models(reports).len() == reports.len());
    assert(report_models(reports)[i] == reports[i]@);
}

/// The share of an operation is the one at its place; without one it is empty.
proof fn share_is_at_its_place<E>(parts: Seq<Seq<E>>, index: int)
    ensures
        0 <= index < parts.len() ==> share_at(parts, index) == parts[index],
        index >= parts.len() ==> share_at(parts, index).len() == 0,
{
}

/// A report has the diagnostic events of its operation, where there are any, and the
/// transaction's resources with the status of the operation.
pub proof fn reports_have_their_events<F>(
    tx_data: JsonValue,
    analysis: TransactionAnalysis<F>,
    envelope: EnvelopeData,
    outcomes: Seq<OperationOutcome>,
    meta: SorobanMetaData,
    reports: Seq<OperationReport<F>>,
    i: int,
)
    requires
        report_models(reports) == reports_of(
            tx_data.model(),
            analysis,
            envelope@,
            outcomes,
            optional_meta(Some(meta)),
        ),
        0 <= i < operations_in(envelope) <= usize::MAX,
    ensures
        reports.len() == operations_in(envelope),
        ({
            let events = diagnostic_models(meta.diagnostic_events@);
            let parts = shares(events, diagnostic_marks(events), operations_in(envelope));
            if i < parts.len() && parts[i].len() > 0 {
                reports[i].diagnostic_input matches Some(input) && input.model()
                    == diagnostic_json(parts[i], tx_data.model())
            } else {
                reports[i].diagnostic_input is None
            }
        }),
        ({
            let events = contract_event_models(meta.contract_events@);
            let parts = shares(events, contract_marks(events), operations_in(envelope));
            if i < parts.len() && parts[i].len() > 0 {
                reports[i].cross_contract_attribution matches Some(own)
                    && own.origin_description@ == "Operation "@ + decimal((i + 1) as nat)
                    && own.call_depth == 0 && own.contract_address@ == (match first_contract(
                    parts[i],
                ) {
                    Some(id) => hex_of(id),
                    None => Seq::empty(),
                }) && same_optional_text(
                    own.function_name,
                    reports[i].transaction_context.function_name,
                )
            } else {
                reports[i].cross_contract_attribution is None
            }
        }),
        reports[i].resource_input.model() == resource_json(
            analysis.resources,
            came_of(outcomes, i) is Success,
        ),
{
    assert(report_models(reports).len() == reports.len());
    assert(report_models(reports)[i] == reports[i]@);
    let events = diagnostic_models(meta.diagnostic_events@);
    let parts = shares(events, diagnostic_marks(events), operations_in(envelope));
    share_is_at_its_place(parts, i);
    let contract_events = contract_event_models(meta.contract_events@);
    let contract_parts = shares(
        contract_events,
        contract_marks(contract_events),
        operations_in(envelope),
    );
    share_is_at_its_place(contract_parts, i);
}

/// Without events there is nothing to look at and no contract to name, but still the
/// resources.
pub proof fn reports_without_events<F>(
    tx_data: JsonValue,
    analysis: TransactionAnalysis<F>,
    envelope: EnvelopeData,
    outcomes: Seq<OperationOutcome>,
    reports: Seq<OperationReport<F>>,
    i: int,
)
    requires
        report_models(reports) == reports_of(
            tx_data.model(),
            analysis,
            envelope@,
            outcomes,
            optional_meta(None),
        ),
        0 <= i < operations_in(envelope) <= usize::MAX,
    ensures
        reports.len() == operations_in(envelope),
        reports[i].diagnostic_input is None,
        reports[i].cross_contract_attribution is None,
        reports[i].resource_input.model() == resource_json(
            analysis.resources,
            came_of(outcomes, i) is Success,
        ),
{
    assert(report_models(reports).len() == reports.len());
    assert(report_models(reports)[i] == reports[i]@);
}

/// What is found under the keys of an object of amounts.
pub open spec fn holds_usage(value: Option<JsonModel>, usage: ResourceUsage) -> bool {
    &&& value matches Some(JsonModel::Object(members)) && members.len() == 4
    &&& field(value->0, "cpuInstructions"@) == Some(
        JsonModel::Number(NumberModel::PosInt(usage.cpu_instructions)),
    )
    &&& field(value->0, "memoryBytes"@) == Some(
        JsonModel::Number(NumberModel::PosInt(usage.memory_bytes)),
    )
    &&& field(value->0, "readBytes"@) == Some(
        JsonModel::Number(NumberModel::PosInt(usage.read_bytes)),
    )
    &&& field(value->0, "writeBytes"@) == Some(
        JsonModel::Number(NumberModel::PosInt(usage.write_bytes)),
    )
}

/// Amounts are found under their keys.
proof fn usage_is_found(usage: ResourceUsage)
    ensures
        holds_usage(Some(crate::decode::multi_op_decoder::usage_json(usage)), usage),
{
    let members = crate::decode::multi_op_decoder::usage_json(usage)->Object_0;
    reveal_strlit("cpuInstructions");
    reveal_strlit("memoryBytes");
    reveal_strlit("readBytes");
    reveal_strlit("writeBytes");
    assert("cpuInstructions"@.len() == 15 && "memoryBytes"@.len() == 11 && "readBytes"@.len() == 9
        && "writeBytes"@.len() == 10);
    first_member_is_looked_up(members, "cpuInstructions"@, 0);
    first_member_is_looked_up(members, "memoryBytes"@, 1);
    first_member_is_looked_up(members, "readBytes"@, 2);
    first_member_is_looked_up(members, "writeBytes"@, 3);
}

/// The resources of a transaction as JSON hold what was used and what was allowed, the
/// status, and where the transaction failed for want of resources, one event that says
/// so.
pub proof fn resources_are_found_under_their_keys(
    resources: TransactionResources,
    is_success: bool,
)
    ensures
        ({
            let value = resource_json(resources, is_success);
            let used = resources.resources_consumed;
            let allowed = resources.resources_allocated;
            &&& value matches JsonModel::Object(members) && members.len() == 4
            &&& holds_usage(field(value, "resourcesConsumed"@), used)
            &&& holds_usage(field(value, "resourcesAllocated"@), allowed)
            &&& is_success ==> field(value, "status"@) == Some(JsonModel::String("SUCCESS"@))
            &&& !is_success ==> field(value, "status"@) == Some(JsonModel::String("FAILED"@))
            &&& field(value, "diagnosticEvents"@) matches Some(JsonModel::Array(events))
                && events.len() == (if resources.is_budget_error {
                1int
            } else {
                0
            }) && (resources.is_budget_error ==> {
                let data = field(events[0], "data"@);
                &&& events[0] matches JsonModel::Object(members) && members.len() == 2
                &&& field(events[0], "type"@) == Some(JsonModel::String("budget"@))
                &&& data matches Some(JsonModel::Object(members)) && members.len() == 3
                &&& field(data->0, "category"@) == Some(JsonModel::String("cpu"@))
                &&& field(data->0, "limit"@) == Some(
                    JsonModel::Number(NumberModel::PosInt(allowed.cpu_instructions)),
                )
                &&& field(data->0, "used"@) == Some(
                    JsonModel::Number(NumberModel::PosInt(used.cpu_instructions)),
                )
            })
        }),
{
    let value = resource_json(resources, is_success);
    let members = value->Object_0;
    reveal_strlit("diagnosticEvents");
    reveal_strlit("resourcesAllocated");
    reveal_strlit("resourcesConsumed");
    reveal_strlit("status");
    assert("diagnosticEvents"@.len() == 16 && "resourcesAllocated"@.len() == 18
        && "resourcesConsumed"@.len() == 17 && "status"@.len() == 6);
    first_member_is_looked_up(members, "diagnosticEvents"@, 0);
    first_member_is_looked_up(members, "resourcesAllocated"@, 1);
    first_member_is_looked_up(members, "resourcesConsumed"@, 2);
    first_member_is_looked_up(members, "status"@, 3);
    usage_is_found(resources.resources_allocated);
    usage_is_found(resources.resources_consumed);
    if resources.is_budget_error {
        budget_event_is_found(resources);
    }
}

/// The parts of the event are found under their keys.
proof fn budget_event_is_found(resources: TransactionResources)
    ensures
        ({
            let event = crate::decode::multi_op_decoder::budget_event_json(resources);
            let data = field(event, "data"@);
            &&& event matches JsonModel::Object(members) && members.len() == 2
            &&& field(event, "type"@) == Some(JsonModel::String("budget"@))
            &&& data matches Some(JsonModel::Object(members)) && members.len() == 3
            &&& field(data->0, "category"@) == Some(JsonModel::String("cpu"@))
            &&& field(data->0, "limit"@) == Some(
                JsonModel::Number(
                    NumberModel::PosInt(resources.resources_allocated.cpu_instructions),
                ),
            )
            &&& field(data->0, "used"@) == Some(
                JsonModel::Number(
                    NumberModel::PosInt(resources.resources_consumed.cpu_instructions),
                ),
            )
        }),
{
    let event = crate::decode::multi_op_decoder::budget_event_json(resources);
    let members = event->Object_0;
    reveal_strlit("data");
    reveal_strlit("type");
    reveal_strlit("category");
    reveal_strlit("limit");
    reveal_strlit("used");
    assert("data"@[0] == 'd' && "type"@[0] == 't');
    assert("category"@.len() == 8 && "limit"@.len() == 5 && "used"@.len() == 4);
    first_member_is_looked_up(members, "data"@, 0);
    first_member_is_looked_up(members, "type"@, 1);
    let inner = members[0].1->Object_0;
    first_member_is_looked_up(inner, "category"@, 0);
    first_member_is_looked_up(inner, "limit"@, 1);
    first_member_is_looked_up(inner, "used"@, 2);
}

/// The events of an operation as JSON hold the encodings, and the transaction's hash and
/// ledger as they are given, null where they are not.
pub proof fn events_are_found_under_their_keys(
    events: Seq<DiagnosticEventModel>,
    tx_data: JsonModel,
)
    ensures
        ({
            let value = diagnostic_json(events, tx_data);
            &&& value matches JsonModel::Object(members) && members.len() == 3
            &&& field(value, "diagnosticEventsXdr"@) == Some(JsonModel::Array(encodings(events)))
            &&& field(value, "hash"@) == match field(tx_data, "hash"@) {
                Some(hash) => Some(hash),
                None => Some(JsonModel::Null),
            }
            &&& field(value, "ledger"@) == match field(tx_data, "ledger"@) {
                Some(ledger) => Some(ledger),
                None => Some(JsonModel::Null),
            }
        }),
{
    let members = diagnostic_json(events, tx_data)->Object_0;
    reveal_strlit("diagnosticEventsXdr");
    reveal_strlit("hash");
    reveal_strlit("ledger");
    assert("diagnosticEventsXdr"@.len() == 19 && "hash"@.len() == 4 && "ledger"@.len() == 6);
    first_member_is_looked_up(members, "diagnosticEventsXdr"@, 0);
    first_member_is_looked_up(members, "hash"@, 1);
    first_member_is_looked_up(members, "ledger"@, 2);
}

/// Each event that can be encoded gives its encoding, and any other gives none, in order.
pub proof fn events_are_encoded_in_order(
    events: Seq<DiagnosticEventModel>,
    event: DiagnosticEventModel,
)
    ensures
        encodings(Seq::empty()).len() == 0,
        event.xdr matches Some(text) ==> encodings(events.push(event)).len() == encodings(
            events,
        ).len() + 1 && encodings(events.push(event)).last() == JsonModel::String(text)
            && encodings(events.push(event)).drop_last() == encodings(events),
        event.xdr is None ==> encodings(events.push(event)) == encodings(events),
{
    assert(events.push(event).drop_last() =~= events);
    if let Some(text) = event.xdr {
        assert(encodings(events.push(event)).drop_last() =~= encodings(events));
    }
}

/// The contract that is named is that of the first event that is of a contract.
pub proof fn first_contract_is_named(events: Seq<ContractEventModel>, at: int)
    ensures
        0 <= at < events.len() && events[at].contract_id is Some && (forall|i: int|
            0 <= i < at ==> (#[trigger] events[i]).contract_id is None) ==> first_contract(events)
            == events[at].contract_id,
        (forall|i: int| 0 <= i < events.len() ==> (#[trigger] events[i]).contract_id is None)
            ==> first_contract(events) is None,
    decreases events.len(),
{
    if events.len() > 0 {
        let rest = events.drop_first();
        first_contract_is_named(rest, at - 1);
        assert forall|i: int| #![trigger rest[i]] 0 <= i < rest.len() implies rest[i] == events[i
            + 1] by {}
        if 0 < at < events.len() {
            assert(rest[at - 1] == events[at]);
        }
        if events[0].contract_id is Some {
            assert(!(forall|i: int|
                0 <= i < events.len() ==> (#[trigger] events[i]).contract_id is None));
        }
    }
}

/// Where events of an operation are of a contract, the contract is named with the function
/// and the number of the operation.
pub proof fn contract_is_attributed(
    events: Seq<ContractEventData>,
    function_name: Option<Seq<char>>,
    index: int,
    attribution: Option<FailureAttribution>,
)
    requires
        match attribution {
            Some(own) => attribution_of(contract_event_models(events), function_name, index)
                == Some(own@),
            None => attribution_of(contract_event_models(events), function_name, index) is None,
        },
        index >= 0,
    ensures
        attribution is None <==> events.len() == 0,
        attribution matches Some(own) ==> own.call_depth == 0 && own.origin_description@
            == "Operation "@ + decimal((index + 1) as nat) && optional_text(own.function_name)
            == function_name && own.contract_address@ == (match first_contract(
            contract_event_models(events),
        ) {
            Some(id) => hex_of(id),
            None => Seq::empty(),
        }),
{
    assert(contract_event_models(events).len() == events.len());
}

/// What is known of an operation is told by what it calls and what came of it.
pub proof fn operations_are_described(
    call: Option<&OperationCall>,
    outcome: OperationOutcome,
    info: OperationResultInfo,
)
    requires
        info@ == info_of(optional_call(call), outcome),
    ensures
        info.is_success <==> outcome is Success,
        info.return_value is None,
        outcome is Success <==> info.error_category is None,
        outcome is Success <==> info.error_name is None,
        outcome is Other ==> info.error_category->0@ == "Unknown"@ && info.error_name->0@
            == "NonInvokeHostFunctionOperation"@,
        outcome is Trapped ==> info.error_category->0@ == "Contract"@,
        outcome is ResourceLimitExceeded ==> info.error_category->0@ == "Budget"@,
        outcome is EntryArchived ==> info.error_category->0@ == "Storage"@,
        outcome is Malformed || outcome is InsufficientRefundableFee
            ==> info.error_category->0@ == "Context"@,
        !(outcome is Success || outcome is Other) ==> info.error_name->0@ == "HostError"@,
        match call {
            Some(OperationCall::InvokeContract { function_name, arguments }) => {
                &&& if outcome is Other && function_name@.len() == 0 {
                    info.function_name is None
                } else {
                    info.function_name matches Some(name) && name@ == function_name@
                }
                &&& if outcome is Success {
                    info.arguments@.len() == arguments@.len() && forall|j: int|
                        0 <= j < arguments@.len() ==> (#[trigger] info.arguments@[j])@
                            == arguments@[j]@
                } else {
                    info.arguments@.len() == 0
                }
            },
            _ => info.function_name is None && info.arguments@.len() == 0,
        },
{
    let shown = info@.arguments;
    assert(shown.len() == info.arguments@.len());
    if let Some(OperationCall::InvokeContract { function_name, arguments }) = call {
        if function_name@.len() == 0 {
            assert(function_name@ =~= Seq::empty());
        }
        if outcome is Success {
            assert(shown == texts(arguments@));
            assert forall|j: int| 0 <= j < arguments@.len() implies (
            #[trigger] info.arguments@[j])@ == arguments@[j]@ by {
                assert(shown[j] == info.arguments@[j]@);
                assert(texts(arguments@)[j] == arguments@[j]@);
            }
        }
    }
}

/// What is made of a transaction is decided by its parts in order: the envelope, the
/// result, and then the events, which may be missing. A part that is missing or cannot be
/// decoded is named.
pub proof fn parts_decide_in_order<F>(
    tx_data: JsonModel,
    analysis: TransactionAnalysis<F>,
    envelope: Option<Result<EnvelopeModel, Seq<char>>>,
    result: Option<Result<ResultModel, Seq<char>>>,
    meta: Option<Result<Option<MetaModel>, Seq<char>>>,
    outcome: GratResult<TransactionOutcome<F>>,
)
    requires
        outcome_result(outcome) == decoded_parts(tx_data, analysis, envelope, result, meta),
    ensures
        envelope is None ==> (outcome matches Err(GratError::Internal(text)) && text@
            == "Missing envelopeXdr in transaction data"@),
        envelope matches Some(Err(error)) ==> (outcome matches Err(GratError::Internal(text))
            && text@ == "Failed to decode envelope XDR: "@ + error),
        envelope matches Some(Ok(operations)) ==> match result {
            None => outcome matches Err(GratError::Internal(text)) && text@
                == "Missing resultXdr in transaction data"@,
            Some(Err(error)) => outcome matches Err(GratError::Internal(text)) && text@
                == "Failed to decode result XDR: "@ + error,
            Some(Ok(ResultModel::FeeBumpInnerSuccess)) => outcome matches Ok(
                TransactionOutcome::WholeTransaction,
            ),
            Some(Ok(ResultModel::Other)) => outcome matches Err(GratError::NotSorobanTransaction),
            Some(Ok(ResultModel::Success(outcomes))) => reported(
                tx_data,
                analysis,
                operations,
                outcomes,
                meta,
                outcome,
            ),
            Some(Ok(ResultModel::Failed(outcomes))) => reported(
                tx_data,
                analysis,
                operations,
                outcomes,
                meta,
                outcome,
            ),
        },
{
}

/// Whether `outcome` is the reports on the operations, with the events as far as there are
/// any; or the error where the events cannot be decoded.
pub open spec fn reported<F>(
    tx_data: JsonModel,
    analysis: TransactionAnalysis<F>,
    operations: EnvelopeModel,
    outcomes: Seq<OperationOutcome>,
    meta: Option<Result<Option<MetaModel>, Seq<char>>>,
    outcome: GratResult<TransactionOutcome<F>>,
) -> bool {
    match meta {
        Some(Err(error)) => outcome matches Err(GratError::Internal(text)) && text@
            == "Failed to decode meta XDR: "@ + error,
        Some(Ok(events)) => outcome matches Ok(TransactionOutcome::Operations(reports))
            && report_models(reports@) == reports_of(
            tx_data,
            analysis,
            operations,
            outcomes,
            events,
        ),
        None => outcome matches Ok(TransactionOutcome::Operations(reports)) && report_models(
            reports@,
        ) == reports_of(tx_data, analysis, operations, outcomes, None),
    }
}

/// The parts of a transaction are decoded from the texts of three members; a member that
/// is no text is missing.
pub proof fn parts_are_decoded_from_their_members<F>(
    tx_data: JsonModel,
    analysis: TransactionAnalysis<F>,
    envelope: Option<Result<EnvelopeModel, Seq<char>>>,
    result: Option<Result<ResultModel, Seq<char>>>,
    meta: Option<Result<Option<MetaModel>, Seq<char>>>,
)
    requires
        match field(tx_data, "envelopeXdr"@) {
            Some(JsonModel::String(text)) => envelope == Some(envelope_in(text)),
            _ => envelope is None,
        },
        match field(tx_data, "resultXdr"@) {
            Some(JsonModel::String(text)) => result == Some(result_in(text)),
            _ => result is None,
        },
        match field(tx_data, "resultMetaXdr"@) {
            Some(JsonModel::String(text)) => meta == Some(meta_in(text)),
            _ => meta is None,
        },
    ensures
        decoded_transaction(tx_data, analysis) == decoded_parts(
            tx_data,
            analysis,
            envelope,
            result,
            meta,
        ),
{
}

/// The wanted report is the one at the index; all are kept where no index is given or none
/// has it.
pub proof fn wanted_report_is_kept<T>(reports: Seq<T>, index: usize)
    ensures
        filtered(reports, None) == reports,
        index >= reports.len() ==> filtered(reports, Some(index)) == reports,
        index < reports.len() ==> filtered(reports, Some(index)).len() == 1 && filtered(
            reports,
            Some(index),
        )[0] == reports[index as int],
{
}

/// Only the reports on operations are chosen from; a report on the whole transaction and an
/// error stay as they are.
pub proof fn only_operations_are_chosen_from<F>(
    outcome: GratResult<TransactionOutcome<F>>,
    kept: GratResult<TransactionOutcome<F>>,
    op_index: Option<usize>,
)
    requires
        outcome_result(kept) == filtered_outcome(outcome_result(outcome), op_index),
    ensures
        outcome matches Err(error) ==> kept is Err && kept->Err_0@ == error@,
        outcome matches Ok(TransactionOutcome::WholeTransaction) ==> (kept matches Ok(
            TransactionOutcome::WholeTransaction,
        )),
        outcome matches Ok(TransactionOutcome::Operations(reports)) ==> (kept matches Ok(
            TransactionOutcome::Operations(own),
        ) && match op_index {
            Some(index) if index < reports@.len() => own@.len() == 1 && own@[0]@
                == reports@[index as int]@,
            _ => own@.len() == reports@.len() && forall|i: int|
                0 <= i < reports@.len() ==> (#[trigger] own@[i])@ == reports@[i]@,
        }),
{
    if let Ok(TransactionOutcome::Operations(reports)) = outcome {
        let models = report_models(reports@);
        assert(models.len() == reports@.len());
        let own = kept->Ok_0->Operations_0;
        assert(report_models(own@) == filtered(models, op_index));
        assert(report_models(own@).len() == own@.len());
        assert forall|i: int| 0 <= i < own@.len() implies report_models(own@)[i] == (
        #[trigger] own@[i])@ by {}
        assert forall|i: int| 0 <= i < reports@.len() implies #[trigger] models[i]
            == reports@[i]@ by {}
        match op_index {
            Some(index) if index < reports@.len() => {
                assert(report_models(own@)[0] == own@[0]@);
                assert(models[index as int] == reports@[index as int]@);
            },
            _ => {
                assert forall|i: int| 0 <= i < reports@.len() implies (#[trigger] own@[i])@
                    == reports@[i]@ by {
                    assert(models[i] == reports@[i]@);
                }
            },
        }
    }
}

/// A report is seen as it is, field by field.
pub proof fn reports_are_seen_field_by_field<F>(report: OperationReport<F>)
    ensures
        report@.error_category == report.error_category@,
        report@.error_code == report.error_code,
        report@.error_name == report.error_name@,
        report@.summary == report.summary@,
        report@.transaction_context == report.transaction_context@,
        report.diagnostic_input is None <==> report@.diagnostic_input is None,
        report.diagnostic_input matches Some(input) ==> report@.diagnostic_input == Some(
            input.model(),
        ),
        report@.resource_input == report.resource_input.model(),
        report.cross_contract_attribution is None <==> report@.cross_contract_attribution is None,
        report.cross_contract_attribution matches Some(attribution)
            ==> report@.cross_contract_attribution == Some(attribution@),
{
}

/// The context of a report and a contract that is named are seen as they are, field by
/// field.
pub proof fn contexts_are_seen_field_by_field<F>(
    context: TransactionContext<F>,
    attribution: FailureAttribution,
)
    ensures
        context@.tx_hash == context.tx_hash@,
        context@.ledger_sequence == context.ledger_sequence,
        context@.function_name == optional_text(context.function_name),
        context@.arguments == texts(context.arguments@),
        context@.return_value == optional_text(context.return_value),
        context@.fee == context.fee,
        context@.resources == context.resources,
        context@.operation_index == context.operation_index,
        context@.operation_count == context.operation_count,
        attribution@.contract_address == attribution.contract_address@,
        attribution@.function_name == optional_text(attribution.function_name),
        attribution@.call_depth == attribution.call_depth,
        attribution@.origin_description == attribution.origin_description@,
{
}

/// The parts of a transaction are seen as they are, one for one.
pub proof fn parts_are_seen_one_for_one(
    calls: Seq<OperationCall>,
    diagnostic_events: Seq<DiagnosticEventData>,
    contract_events: Seq<ContractEventData>,
    topics: Seq<Option<String>>,
    meta: SorobanMetaData,
)
    ensures
        call_models(calls).len() == calls.len(),
        forall|i: int|
            0 <= i < calls.len() ==> #[trigger] call_models(calls)[i] == match calls[i] {
                OperationCall::InvokeContract { function_name, arguments } =>
                    (CallModel::InvokeContract {
                    function_name: function_name@,
                    arguments: texts(arguments@),
                }),
                OperationCall::OtherHostFunction => CallModel::OtherHostFunction,
                OperationCall::NotInvoke => CallModel::NotInvoke,
            },
        diagnostic_models(diagnostic_events).len() == diagnostic_events.len(),
        forall|i: int|
            #![trigger diagnostic_models(diagnostic_events)[i]]
            0 <= i < diagnostic_events.len() ==> diagnostic_models(diagnostic_events)[i].topics
                == optional_texts(diagnostic_events[i].topics@) && diagnostic_models(
                diagnostic_events,
            )[i].xdr == optional_text(diagnostic_events[i].xdr),
        contract_event_models(contract_events).len() == contract_events.len(),
        forall|i: int|
            #![trigger contract_event_models(contract_events)[i]]
            0 <= i < contract_events.len() ==> contract_event_models(contract_events)[i].topics
                == optional_texts(contract_events[i].topics@)
                && match contract_events[i].contract_id {
                Some(id) => contract_event_models(contract_events)[i].contract_id == Some(id@),
                None => contract_event_models(contract_events)[i].contract_id is None,
            },
        optional_texts(topics).len() == topics.len(),
        forall|i: int|
            0 <= i < topics.len() ==> #[trigger] optional_texts(topics)[i] == match topics[i] {
                Some(text) => Some(text@),
                None => None,
            },
        meta@.diagnostic_events == diagnostic_models(meta.diagnostic_events@),
        meta@.contract_events == contract_event_models(meta.contract_events@),
        diagnostic_events_of(optional_meta(Some(meta))) == diagnostic_models(
            meta.diagnostic_events@,
        ),
        contract_events_of(optional_meta(Some(meta))) == contract_event_models(
            meta.contract_events@,
        ),
        diagnostic_events_of(optional_meta(None)).len() == 0,
        contract_events_of(optional_meta(None)).len() == 0,
{
}

/// What reading the parts of a transaction gave is seen as it is.
pub proof fn read_parts_are_seen_as_they_are(
    envelope: Result<EnvelopeData, String>,
    result: Result<ResultData, String>,
    meta: Result<Option<SorobanMetaData>, String>,
)
    ensures
        match envelope {
            Ok(EnvelopeData::V0) => envelope_result(envelope) == Ok::<EnvelopeModel, Seq<char>>(
                EnvelopeModel::V0,
            ),
            Ok(EnvelopeData::Operations(calls)) => envelope_result(envelope) == Ok::<
                EnvelopeModel,
                Seq<char>,
            >(EnvelopeModel::Operations(call_models(calls@))),
            Err(error) => envelope_result(envelope) == Err::<EnvelopeModel, Seq<char>>(error@),
        },
        match result {
            Ok(ResultData::Success(outcomes)) => transaction_result(result) == Ok::<
                ResultModel,
                Seq<char>,
            >(ResultModel::Success(outcomes@)),
            Ok(ResultData::Failed(outcomes)) => transaction_result(result) == Ok::<
                ResultModel,
                Seq<char>,
            >(ResultModel::Failed(outcomes@)),
            Ok(ResultData::FeeBumpInnerSuccess) => transaction_result(result) == Ok::<
                ResultModel,
                Seq<char>,
            >(ResultModel::FeeBumpInnerSuccess),
            Ok(ResultData::Other) => transaction_result(result) == Ok::<ResultModel, Seq<char>>(
                ResultModel::Other,
            ),
            Err(error) => transaction_result(result) == Err::<ResultModel, Seq<char>>(error@),
        },
        match meta {
            Ok(Some(meta)) => meta_result(Ok(Some(meta))) == Ok::<Option<MetaModel>, Seq<char>>(
                Some(meta@),
            ),
            Ok(None) => meta_result(meta) == Ok::<Option<MetaModel>, Seq<char>>(None),
            Err(error) => meta_result(meta) == Err::<Option<MetaModel>, Seq<char>>(error@),
        },
{
}

/// Each operation is described by its own call and its own outcome. One that the envelope
/// does not hold calls nothing that is known, and one without an outcome succeeded.
pub proof fn operations_are_described_one_for_one(
    envelope: EnvelopeData,
    outcomes: Seq<OperationOutcome>,
    num_ops: nat,
    infos: Seq<OperationResultInfo>,
    i: int,
)
    requires
        info_models(infos) == Seq::new(
            num_ops,
            |j: int| info_of(call_at(envelope@, j), outcome_at(outcomes, j)),
        ),
        0 <= i < num_ops,
    ensures
        infos.len() == num_ops,
        infos[i].is_success <==> came_of(outcomes, i) is Success,
        match called(envelope, i) {
            Some(call) => infos[i]@ == info_of(Some(call@), came_of(outcomes, i)),
            None => infos[i].function_name is None && infos[i].arguments@.len() == 0 && infos[i]@
                == info_of(None, came_of(outcomes, i)),
        },
{
    assert(info_models(infos).len() == infos.len());
    assert(info_models(infos)[i] == infos[i]@);
    assert(infos[i]@.arguments.len() == infos[i].arguments@.len());
    if let EnvelopeData::Operations(calls) = envelope {
        if i < calls@.len() {
            assert(call_models(calls@)[i] == calls@[i]@);
        }
    }
}

/// What is known of several operations is seen one for one.
pub proof fn descriptions_are_seen_one_for_one(infos: Seq<OperationResultInfo>)
    ensures
        info_models(infos).len() == infos.len(),
        forall|i: int|
            #![trigger info_models(infos)[i]]
            0 <= i < infos.len() ==> {
                &&& info_models(infos)[i].function_name == optional_text(infos[i].function_name)
                &&& info_models(infos)[i].arguments == texts(infos[i].arguments@)
                &&& info_models(infos)[i].return_value == optional_text(infos[i].return_value)
                &&& info_models(infos)[i].is_success == infos[i].is_success
                &&& info_models(infos)[i].error_category == optional_text(infos[i].error_category)
                &&& info_models(infos)[i].error_name == optional_text(infos[i].error_name)
            },
{
}

/// A text that may be absent is seen as it is.
pub proof fn optional_texts_are_seen_as_they_are(text: Option<String>)
    ensures
        text is None <==> optional_text(text) is None,
        text matches Some(own) ==> optional_text(text) == Some(own@),
{
}

} // verus!
