//! The parts of a transaction that its reports are made of.
//!
//! The XDR encoding is decoded by the `stellar-xdr` crate. What the reports need is
//! taken out of its values here and kept in the plain types of this library.

use vstd::prelude::*;
use stellar_xdr::curr as stellar;
use stellar_xdr::curr::{ReadXdr, WriteXdr};

use crate::text::{optional_text, texts};


verus! {

/// What an operation calls.
#[derive(Debug, Clone, PartialEq, Eq)]
pub enum OperationCall {
    /// A function of a contract, with the arguments as they are printed for debugging.
    InvokeContract { function_name: String, arguments: Vec<String> },
    /// Any other host function.
    OtherHostFunction,
    /// No host function.
    NotInvoke,
}

/// The operations of a transaction.
#[derive(Debug, Clone, PartialEq, Eq)]
pub enum EnvelopeData {
    /// A transaction of the first form, whose operations are not looked at.
    V0,
    Operations(Vec<OperationCall>),
}

/// What came of an operation.
#[derive(Debug, Clone, Copy, PartialEq, Eq)]
pub enum OperationOutcome {
    Success,
    Malformed,
    Trapped,
    ResourceLimitExceeded,
    EntryArchived,
    InsufficientRefundableFee,
    /// Not the outcome of a host function.
    Other,
}

/// What came of a transaction.
#[derive(Debug, Clone, PartialEq, Eq)]
pub enum ResultData {
    Success(Vec<OperationOutcome>),
    Failed(Vec<OperationOutcome>),
    FeeBumpInnerSuccess,
    Other,
}

/// A diagnostic event.
#[derive(Debug, Clone, PartialEq, Eq)]
pub struct DiagnosticEventData {
    /// The topics; those that are symbols, as text.
    pub topics: Vec<Option<String>>,
    /// The event's own encoding, in base64, where it can be encoded.
    pub xdr: Option<String>,
}

/// A contract event.
#[derive(Debug, Clone, PartialEq, Eq)]
pub struct ContractEventData {
    /// The topics; those that are symbols, as text.
    pub topics: Vec<Option<String>>,
    pub contract_id: Option<[u8; 32]>,
}

/// The events of a transaction.
#[derive(Debug, Clone, PartialEq, Eq)]
pub struct SorobanMetaData {
    pub diagnostic_events: Vec<DiagnosticEventData>,
    pub contract_events: Vec<ContractEventData>,
}

/// The model of [`OperationCall`].
pub enum CallModel {
    InvokeContract { function_name: Seq<char>, arguments: Seq<Seq<char>> },
    OtherHostFunction,
    NotInvoke,
}

/// The model of [`EnvelopeData`].
pub enum EnvelopeModel {
    V0,
    Operations(Seq<CallModel>),
}

/// The model of [`ResultData`].
pub enum ResultModel {
    Success(Seq<OperationOutcome>),
    Failed(Seq<OperationOutcome>),
    FeeBumpInnerSuccess,
    Other,
}

/// The model of [`DiagnosticEventData`].
pub struct DiagnosticEventModel {
    pub topics: Seq<Option<Seq<char>>>,
    pub xdr: Option<Seq<char>>,
}

/// The model of [`ContractEventData`].
pub struct ContractEventModel {
    pub topics: Seq<Option<Seq<char>>>,
    pub contract_id: Option<Seq<u8>>,
}

/// The model of [`SorobanMetaData`].
pub struct MetaModel {
    pub diagnostic_events: Seq<DiagnosticEventModel>,
    pub contract_events: Seq<ContractEventModel>,
}

/// The characters of several texts that may be absent.
pub open spec fn optional_texts(strings: Seq<Option<String>>) -> Seq<Option<Seq<char>>> {
    Seq::new(strings.len(), |i: int| optional_text(strings[i]))
}

impl View for OperationCall {
    type V = CallModel;

    open spec fn view(&self) -> CallModel {
        match *self {
            OperationCall::InvokeContract { function_name, arguments } =>
                CallModel::InvokeContract {
                function_name: function_name@,
                arguments: texts(arguments@),
            },
            OperationCall::OtherHostFunction => CallModel::OtherHostFunction,
            OperationCall::NotInvoke => CallModel::NotInvoke,
        }
    }
}

/// The models of several calls.
pub open spec fn call_models(calls: Seq<OperationCall>) -> Seq<CallModel> {
    Seq::new(calls.len(), |i: int| calls[i]@)
}

impl View for EnvelopeData {
    type V = EnvelopeModel;

    open spec fn view(&self) -> EnvelopeModel {
        match *self {
            EnvelopeData::V0 => EnvelopeModel::V0,
            EnvelopeData::Operations(calls) => EnvelopeModel::Operations(call_models(calls@)),
        }
    }
}

impl View for ResultData {
    type V = ResultModel;

    open spec fn view(&self) -> ResultModel {
        match *self {
            ResultData::Success(outcomes) => ResultModel::Success(outcomes@),
            ResultData::Failed(outcomes) => ResultModel::Failed(outcomes@),
            ResultData::FeeBumpInnerSuccess => ResultModel::FeeBumpInnerSuccess,
            ResultData::Other => ResultModel::Other,
        }
    }
}

impl View for DiagnosticEventData {
    type V = DiagnosticEventModel;

    open spec fn view(&self) -> DiagnosticEventModel {
        DiagnosticEventModel {
            topics: optional_texts(self.topics@),
            xdr: optional_text(self.xdr),
        }
    }
}

impl View for ContractEventData {
    type V = ContractEventModel;

    open spec fn view(&self) -> ContractEventModel {
        ContractEventModel {
            topics: optional_texts(self.topics@),
            contract_id: match self.contract_id {
                Some(id) => Some(id@),
                None => None,
            },
        }
    }
}

/// The models of several diagnostic events.
pub open spec fn diagnostic_models(events: Seq<DiagnosticEventData>) -> Seq<DiagnosticEventModel> {
    Seq::new(events.len(), |i: int| events[i]@)
}

/// The models of several contract events.
pub open spec fn contract_event_models(events: Seq<ContractEventData>) -> Seq<ContractEventModel> {
    Seq::new(events.len(), |i: int| events[i]@)
}

impl View for SorobanMetaData {
    type V = MetaModel;

    open spec fn view(&self) -> MetaModel {
        MetaModel {
            diagnostic_events: diagnostic_models(self.diagnostic_events@),
            contract_events: contract_event_models(self.contract_events@),
        }
    }
}

/// The operation of the `stellar-xdr` crate.
#[verifier::external_type_specification]
#[verifier::external_body]
pub struct ExOperation(stellar_xdr::curr::Operation);

/// The result of an operation of the `stellar-xdr` crate.
#[verifier::external_type_specification]
#[verifier::external_body]
pub struct ExOperationResult(stellar_xdr::curr::OperationResult);

/// The diagnostic event of the `stellar-xdr` crate.
#[verifier::external_type_specification]
#[verifier::external_body]
pub struct ExDiagnosticEvent(stellar_xdr::curr::DiagnosticEvent);

/// The contract event of the `stellar-xdr` crate.
#[verifier::external_type_specification]
#[verifier::external_body]
pub struct ExContractEvent(stellar_xdr::curr::ContractEvent);

/// What an operation of the `stellar-xdr` crate calls.
pub uninterp spec fn operation_contents(operation: stellar_xdr::curr::Operation) -> CallModel;

/// Which outcome a result of the `stellar-xdr` crate is.
pub uninterp spec fn outcome_contents(
    result: stellar_xdr::curr::OperationResult,
) -> OperationOutcome;

/// The topics of a diagnostic event of the `stellar-xdr` crate: those that are symbols,
/// as text.
pub uninterp spec fn diagnostic_topics(
    event: stellar_xdr::curr::DiagnosticEvent,
) -> Seq<Option<Seq<char>>>;

/// What `to_xdr_base64` makes of a diagnostic event, without limits; nothing where it
/// fails.
pub uninterp spec fn encoded_event(event: stellar_xdr::curr::DiagnosticEvent) -> Option<Seq<char>>;

/// What a contract event of the `stellar-xdr` crate holds.
pub uninterp spec fn event_contents(event: stellar_xdr::curr::ContractEvent) -> ContractEventModel;

/// What `TransactionEnvelope::from_xdr_base64` makes of a text, without limits: the
/// operations, or the text of the error.
pub uninterp spec fn envelope_in(text: Seq<char>) -> Result<EnvelopeModel, Seq<char>>;

/// What `TransactionResult::from_xdr_base64` makes of a text, without limits: the
/// outcomes, or the text of the error.
pub uninterp spec fn result_in(text: Seq<char>) -> Result<ResultModel, Seq<char>>;

/// What `TransactionMeta::from_xdr_base64` makes of a text, without limits: the events,
/// where there is a part for them, or the text of the error.
pub uninterp spec fn meta_in(text: Seq<char>) -> Result<Option<MetaModel>, Seq<char>>;

/// What came of a transaction, where the outcomes are not told apart yet.
enum RawResult {
    Success(Vec<stellar_xdr::curr::OperationResult>),
    Failed(Vec<stellar_xdr::curr::OperationResult>),
    FeeBumpInnerSuccess,
    Other,
}

/// The events of a transaction, not taken apart yet.
struct RawMeta {
    diagnostic_events: Vec<stellar_xdr::curr::DiagnosticEvent>,
    contract_events: Vec<stellar_xdr::curr::ContractEvent>,
}

/// What a diagnostic event holds.
spec fn diagnostic_contents(event: stellar_xdr::curr::DiagnosticEvent) -> DiagnosticEventModel {
    DiagnosticEventModel { topics: diagnostic_topics(event), xdr: encoded_event(event) }
}

/// The outcomes that several results are.
spec fn outcomes_of(results: Seq<stellar_xdr::curr::OperationResult>) -> Seq<OperationOutcome> {
    Seq::new(results.len(), |i: int| outcome_contents(results[i]))
}

/// What several operations call.
spec fn calls_of(operations: Seq<stellar_xdr::curr::Operation>) -> Seq<CallModel> {
    Seq::new(operations.len(), |i: int| operation_contents(operations[i]))
}

impl RawResult {
    spec fn model(self) -> ResultModel {
        match self {
            RawResult::Success(results) => ResultModel::Success(outcomes_of(results@)),
            RawResult::Failed(results) => ResultModel::Failed(outcomes_of(results@)),
            RawResult::FeeBumpInnerSuccess => ResultModel::FeeBumpInnerSuccess,
            RawResult::Other => ResultModel::Other,
        }
    }
}

impl RawMeta {
    spec fn model(self) -> MetaModel {
        MetaModel {
            diagnostic_events: Seq::new(
                self.diagnostic_events@.len(),
                |i: int| diagnostic_contents(self.diagnostic_events@[i]),
            ),
            contract_events: Seq::new(
                self.contract_events@.len(),
                |i: int| event_contents(self.contract_events@[i]),
            ),
        }
    }
}

/// Decodes a transaction's operations; none for a transaction of the first form.
///
/// Calls `stellar_xdr::curr::TransactionEnvelope::from_xdr_base64` with `Limits::none()`
/// and moves the operations out, of a fee bump those of the inner transaction; an error
/// is given as it is displayed. Claimed: the outcome depends on the text alone.
#[verifier::external_body]
fn read_operations(text: &str) -> (read: Result<
    Option<Vec<stellar_xdr::curr::Operation>>,
    String,
>)
    ensures
        match read {
            Ok(None) => envelope_in(text@) == Ok::<EnvelopeModel, Seq<char>>(EnvelopeModel::V0),
            Ok(Some(operations)) => envelope_in(text@) == Ok::<EnvelopeModel, Seq<char>>(
                EnvelopeModel::Operations(calls_of(operations@)),
            ),
            Err(error) => envelope_in(text@) == Err::<EnvelopeModel, Seq<char>>(error@),
        },
{
    match stellar::TransactionEnvelope::from_xdr_base64(text, stellar::Limits::none()) {
        Ok(stellar::TransactionEnvelope::TxV0(_)) => Ok(None),
        Ok(stellar::TransactionEnvelope::Tx(v1)) => Ok(Some(v1.tx.operations.into())),
        Ok(stellar::TransactionEnvelope::TxFeeBump(bump)) => {
            let stellar::FeeBumpTransactionInnerTx::Tx(v1) = bump.tx.inner_tx;
            Ok(Some(v1.tx.operations.into()))
        }
        Err(error) => Err(error.to_string()),
    }
}

/// What an operation calls.
///
/// Tells `stellar_xdr::curr::OperationBody::InvokeHostFunction` from the other bodies and
/// `HostFunction::InvokeContract` from the other host functions; the function's name is
/// given as `StringM` displays it and each argument as its `Debug` prints it. Claimed:
/// this is what the operation calls.
#[verifier::external_body]
fn operation_call(operation: stellar_xdr::curr::Operation) -> (call: OperationCall)
    ensures
        call@ == operation_contents(operation),
{
    match operation.body {
        stellar::OperationBody::InvokeHostFunction(invoke) => match invoke.host_function {
            stellar::HostFunction::InvokeContract(call) => OperationCall::InvokeContract {
                function_name: call.function_name.to_string(),
                arguments: call.args.iter().map(|argument| format!("{argument:?}")).collect(),
            },
            _ => OperationCall::OtherHostFunction,
        },
        _ => OperationCall::NotInvoke,
    }
}

/// Decodes what came of a transaction.
///
/// Calls `stellar_xdr::curr::TransactionResult::from_xdr_base64` with `Limits::none()`
/// and tells the variants of `TransactionResultResult` apart; an error is given as it is
/// displayed. Claimed: the outcome depends on the text alone.
#[verifier::external_body]
fn read_raw_result(text: &str) -> (read: Result<RawResult, String>)
    ensures
        match read {
            Ok(raw) => result_in(text@) == Ok::<ResultModel, Seq<char>>(raw.model()),
            Err(error) => result_in(text@) == Err::<ResultModel, Seq<char>>(error@),
        },
{
    match stellar::TransactionResult::from_xdr_base64(text, stellar::Limits::none()) {
        Ok(result) => Ok(match result.result {
            stellar::TransactionResultResult::TxSuccess(ops) => RawResult::Success(ops.into()),
            stellar::TransactionResultResult::TxFailed(ops) => RawResult::Failed(ops.into()),
            stellar::TransactionResultResult::TxFeeBumpInnerSuccess(_) => {
                RawResult::FeeBumpInnerSuccess
            }
            _ => RawResult::Other,
        }),
        Err(error) => Err(error.to_string()),
    }
}

/// Which outcome a result is.
///
/// Tells the variants of `stellar_xdr::curr::InvokeHostFunctionResult` apart; a result
/// that holds none is another outcome. Claimed: this is the outcome that the result is.
#[verifier::external_body]
fn operation_outcome(result: stellar_xdr::curr::OperationResult) -> (outcome: OperationOutcome)
    ensures
        outcome == outcome_contents(result),
{
    let stellar::OperationResult::OpInner(inner) = result else { return OperationOutcome::Other };
    let stellar::OperationResultTr::InvokeHostFunction(invoked) = inner else {
        return OperationOutcome::Other;
    };
    match invoked {
        stellar::InvokeHostFunctionResult::Success(_) => OperationOutcome::Success,
        stellar::InvokeHostFunctionResult::Malformed => OperationOutcome::Malformed,
        stellar::InvokeHostFunctionResult::Trapped => OperationOutcome::Trapped,
        stellar::InvokeHostFunctionResult::ResourceLimitExceeded =>
            OperationOutcome::ResourceLimitExceeded,
        stellar::InvokeHostFunctionResult::EntryArchived => OperationOutcome::EntryArchived,
        stellar::InvokeHostFunctionResult::InsufficientRefundableFee =>
            OperationOutcome::InsufficientRefundableFee,
    }
}

/// Decodes the events of a transaction; none where there is no part for them.
///
/// Calls `stellar_xdr::curr::TransactionMeta::from_xdr_base64` with `Limits::none()` and
/// moves the events out of the `soroban_meta` of `TransactionMeta::V3`; an error is given
/// as it is displayed. Claimed: the outcome depends on the text alone.
#[verifier::external_body]
fn read_raw_meta(text: &str) -> (read: Result<Option<RawMeta>, String>)
    ensures
        match read {
            Ok(None) => meta_in(text@) == Ok::<Option<MetaModel>, Seq<char>>(None),
            Ok(Some(raw)) => meta_in(text@) == Ok::<Option<MetaModel>, Seq<char>>(
                Some(raw.model()),
            ),
            Err(error) => meta_in(text@) == Err::<Option<MetaModel>, Seq<char>>(error@),
        },
{
    match stellar::TransactionMeta::from_xdr_base64(text, stellar::Limits::none()) {
        Ok(stellar::TransactionMeta::V3(v3)) => Ok(v3.soroban_meta.map(|meta| RawMeta {
            diagnostic_events: meta.diagnostic_events.into(),
            contract_events: meta.events.into(),
        })),
        Ok(_) => Ok(None),
        Err(error) => Err(error.to_string()),
    }
}

/// The topics of a diagnostic event.
///
/// Tells the topics that are `stellar_xdr::curr::ScVal::Symbol`, given as `StringM`
/// displays them, from the others. Claimed: these are the topics of the event.
#[verifier::external_body]
fn event_topics(event: &stellar_xdr::curr::DiagnosticEvent) -> (topics: Vec<Option<String>>)
    ensures
        optional_texts(topics@) == diagnostic_topics(*event),
{
    let stellar::ContractEventBody::V0(body) = &event.event.body;
    body.topics.iter().map(|topic| match topic {
        stellar::ScVal::Symbol(symbol) => Some(symbol.to_string()),
        _ => None,
    }).collect()
}

/// Encodes a diagnostic event in base64.
///
/// Calls `stellar_xdr::curr::WriteXdr::to_xdr_base64` on the event with
/// `Limits::none()`. Claimed: the outcome depends on the event alone.
#[verifier::external_body]
fn encode_event(event: &stellar_xdr::curr::DiagnosticEvent) -> (text: Option<String>)
    ensures
        optional_text(text) == encoded_event(*event),
{
    event.to_xdr_base64(stellar::Limits::none()).ok()
}

/// What a contract event holds.
///
/// Tells the topics that are `stellar_xdr::curr::ScVal::Symbol`, given as `StringM`
/// displays them, from the others, and copies the contract's identifier. Claimed: this
/// is what the event holds.
#[verifier::external_body]
fn contract_event(event: stellar_xdr::curr::ContractEvent) -> (data: ContractEventData)
    ensures
        data@ == event_contents(event),
{
    let stellar::ContractEventBody::V0(body) = event.body;
    let topics = body.topics.iter().map(|topic| match topic {
        stellar::ScVal::Symbol(symbol) => Some(symbol.to_string()),
        _ => None,
    }).collect();
    ContractEventData { topics, contract_id: event.contract_id.map(|id| id.0) }
}

/// The model of what reading an envelope gave.
pub open spec fn envelope_result(read: Result<EnvelopeData, String>) -> Result<
    EnvelopeModel,
    Seq<char>,
> {
    match read {
        Ok(envelope) => Ok(envelope@),
        Err(error) => Err(error@),
    }
}

/// The model of what reading a result gave.
pub open spec fn transaction_result(read: Result<ResultData, String>) -> Result<
    ResultModel,
    Seq<char>,
> {
    match read {
        Ok(result) => Ok(result@),
        Err(error) => Err(error@),
    }
}

/// The model of what reading the events gave.
pub open spec fn meta_result(read: Result<Option<SorobanMetaData>, String>) -> Result<
    Option<MetaModel>,
    Seq<char>,
> {
    match read {
        Ok(Some(meta)) => Ok(Some(meta@)),
        Ok(None) => Ok(None),
        Err(error) => Err(error@),
    }
}

/// Decodes the operations of a transaction.
pub fn read_envelope(text: &str) -> (read: Result<EnvelopeData, String>)
    ensures
        envelope_result(read) == envelope_in(text@),
{
    match read_operations(text) {
        Ok(None) => Ok(EnvelopeData::V0),
        Ok(Some(operations)) => {
            let mut calls: Vec<OperationCall> = Vec::new();
            for operation in items: operations
                invariant
                    items.seq() == operations@,
                    calls@.len() == items.index(),
                    forall|i: int|
                        0 <= i < calls@.len() ==> (#[trigger] calls@[i])@ == operation_contents(
                            operations@[i],
                        ),
            {
                calls.push(operation_call(operation));
            }
            assert(call_models(calls@) =~= calls_of(operations@));
            Ok(EnvelopeData::Operations(calls))
        },
        Err(error) => Err(error),
    }
}

/// Which outcomes several results are.
fn operation_outcomes(results: Vec<stellar_xdr::curr::OperationResult>) -> (outcomes: Vec<
    OperationOutcome,
>)
    ensures
        outcomes@ == outcomes_of(results@),
{
    let mut outcomes: Vec<OperationOutcome> = Vec::new();
    for result in items: results
        invariant
            items.seq() == results@,
            outcomes@.len() == items.index(),
            forall|i: int|
                0 <= i < outcomes@.len() ==> #[trigger] outcomes@[i] == outcome_contents(
                    results@[i],
                ),
    {
        outcomes.push(operation_outcome(result));
    }
    assert(outcomes@ =~= outcomes_of(results@));
    outcomes
}

/// Decodes what came of a transaction.
pub fn read_result(text: &str) -> (read: Result<ResultData, String>)
    ensures
        transaction_result(read) == result_in(text@),
{
    match read_raw_result(text) {
        Ok(RawResult::Success(results)) => Ok(ResultData::Success(operation_outcomes(results))),
        Ok(RawResult::Failed(results)) => Ok(ResultData::Failed(operation_outcomes(results))),
        Ok(RawResult::FeeBumpInnerSuccess) => Ok(ResultData::FeeBumpInnerSuccess),
        Ok(RawResult::Other) => Ok(ResultData::Other),
        Err(error) => Err(error),
    }
}

/// Decodes the events of a transaction.
pub fn read_meta(text: &str) -> (read: Result<Option<SorobanMetaData>, String>)
    ensures
        meta_result(read) == meta_in(text@),
{
    match read_raw_meta(text) {
        Ok(None) => Ok(None),
        Ok(Some(raw)) => {
            let mut diagnostic_events: Vec<DiagnosticEventData> = Vec::new();
            for event in items: raw.diagnostic_events
                invariant
                    items.seq() == raw.diagnostic_events@,
                    diagnostic_events@.len() == items.index(),
                    forall|i: int|
                        0 <= i < diagnostic_events@.len() ==> (#[trigger] diagnostic_events@[i])@
                            == diagnostic_contents(raw.diagnostic_events@[i]),
            {
                diagnostic_events.push(
                    DiagnosticEventData {
                        topics: event_topics(&event),
                        xdr: encode_event(&event),
                    },
                );
            }
            let mut contract_events: Vec<ContractEventData> = Vec::new();
            for event in items: raw.contract_events
                invariant
                    items.seq() == raw.contract_events@,
                    contract_events@.len() == items.index(),
                    forall|i: int|
                        0 <= i < contract_events@.len() ==> (#[trigger] contract_events@[i])@
                            == event_contents(raw.contract_events@[i]),
            {
                contract_events.push(contract_event(event));
            }
            let meta = SorobanMetaData { diagnostic_events, contract_events };
            assert(meta@.diagnostic_events =~= raw.model().diagnostic_events);
            assert(meta@.contract_events =~= raw.model().contract_events);
            Ok(Some(meta))
        },
        Err(error) => Err(error),
    }
}

/// The parts of a transaction are seen under their own names, one for one.
proof fn raw_parts_are_seen_one_for_one(
    operations: Seq<stellar_xdr::curr::Operation>,
    results: Vec<stellar_xdr::curr::OperationResult>,
    raw: RawMeta,
)
    ensures
        calls_of(operations).len() == operations.len(),
        forall|i: int|
            0 <= i < operations.len() ==> #[trigger] calls_of(operations)[i] == operation_contents(
                operations[i],
            ),
        RawResult::Success(results).model() matches ResultModel::Success(own) && own.len()
            == results@.len() && forall|i: int|
            0 <= i < own.len() ==> #[trigger] own[i] == outcome_contents(results@[i]),
        RawResult::Failed(results).model() matches ResultModel::Failed(own) && own.len()
            == results@.len() && forall|i: int|
            0 <= i < own.len() ==> #[trigger] own[i] == outcome_contents(results@[i]),
        RawResult::FeeBumpInnerSuccess.model() is FeeBumpInnerSuccess,
        RawResult::Other.model() is Other,
        raw.model().diagnostic_events.len() == raw.diagnostic_events@.len(),
        forall|i: int|
            #![trigger raw.model().diagnostic_events[i]]
            0 <= i < raw.diagnostic_events@.len() ==> raw.model().diagnostic_events[i].topics
                == diagnostic_topics(raw.diagnostic_events@[i])
                && raw.model().diagnostic_events[i].xdr == encoded_event(
                raw.diagnostic_events@[i],
            ),
        raw.model().contract_events.len() == raw.contract_events@.len(),
        forall|i: int|
            0 <= i < raw.contract_events@.len() ==> #[trigger] raw.model().contract_events[i]
                == event_contents(raw.contract_events@[i]),
{
}

} // verus!
