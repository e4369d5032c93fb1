//! Reports on the operations of a transaction.

use vstd::prelude::*;

use crate::json::{JsonModel, JsonValue};
use crate::text::{optional_text, texts};

verus! {

/// Amounts of the metered resources.
#[derive(Debug, Clone, Copy, PartialEq, Eq)]
pub struct ResourceUsage {
    pub cpu_instructions: u64,
    pub memory_bytes: u64,
    pub read_bytes: u64,
    pub write_bytes: u64,
}

/// The resources of a transaction.
#[derive(Debug, Clone, Copy, PartialEq, Eq)]
pub struct TransactionResources {
    pub resources_consumed: ResourceUsage,
    pub resources_allocated: ResourceUsage,
    /// Whether the transaction failed for want of resources.
    pub is_budget_error: bool,
}

/// What is known of a transaction as a whole. `F` is the breakdown of its fee.
#[derive(Debug, Clone, Copy, PartialEq, Eq)]
pub struct TransactionAnalysis<F> {
    pub resources: TransactionResources,
    pub fee: F,
}

/// The resources of a transaction, as its reports give them.
#[derive(Debug, Clone, Copy, PartialEq, Eq)]
pub struct ResourceSummary {
    pub cpu_instructions_used: u64,
    pub cpu_instructions_limit: u64,
    pub memory_bytes_used: u64,
    pub memory_bytes_limit: u64,
    pub read_bytes: u64,
    pub read_bytes_limit: u64,
    pub write_bytes: u64,
}

/// The transaction that a report is about.
#[derive(Debug, Clone, PartialEq, Eq)]
pub struct TransactionContext<F> {
    pub tx_hash: String,
    pub ledger_sequence: u32,
    pub function_name: Option<String>,
    pub arguments: Vec<String>,
    pub return_value: Option<String>,
    pub fee: F,
    pub resources: ResourceSummary,
    pub operation_index: Option<usize>,
    pub operation_count: Option<usize>,
}

/// The contract that an operation's events are of.
#[derive(Debug, Clone, PartialEq, Eq)]
pub struct FailureAttribution {
    pub contract_address: String,
    pub function_name: Option<String>,
    pub call_depth: u32,
    pub origin_description: String,
}

/// The report on one operation, and what is to be looked at to enrich it.
#[derive(Debug, Clone, PartialEq, Eq)]
pub struct OperationReport<F> {
    pub error_category: String,
    pub error_code: u32,
    pub error_name: String,
    pub summary: String,
    pub transaction_context: TransactionContext<F>,
    /// The operation's diagnostic events, where it has any.
    pub diagnostic_input: Option<JsonValue>,
    /// The transaction's resources.
    pub resource_input: JsonValue,
    pub cross_contract_attribution: Option<FailureAttribution>,
}

/// What the reports on a transaction are made from.
#[derive(Debug, Clone, PartialEq, Eq)]
pub enum TransactionOutcome<F> {
    /// One report for each operation.
    Operations(Vec<OperationReport<F>>),
    /// One report, on the transaction as a whole.
    WholeTransaction,
}

/// The model of [`TransactionContext`].
pub struct ContextModel<F> {
    pub tx_hash: Seq<char>,
    pub ledger_sequence: u32,
    pub function_name: Option<Seq<char>>,
    pub arguments: Seq<Seq<char>>,
    pub return_value: Option<Seq<char>>,
    pub fee: F,
    pub resources: ResourceSummary,
    pub operation_index: Option<usize>,
    pub operation_count: Option<usize>,
}

/// The model of [`FailureAttribution`].
pub struct AttributionModel {
    pub contract_address: Seq<char>,
    pub function_name: Option<Seq<char>>,
    pub call_depth: u32,
    pub origin_description: Seq<char>,
}

/// The model of [`OperationReport`].
pub struct ReportModel<F> {
    pub error_category: Seq<char>,
    pub error_code: u32,
    pub error_name: Seq<char>,
    pub summary: Seq<char>,
    pub transaction_context: ContextModel<F>,
    pub diagnostic_input: Option<JsonModel>,
    pub resource_input: JsonModel,
    pub cross_contract_attribution: Option<AttributionModel>,
}

/// The model of [`TransactionOutcome`].
pub enum OutcomeModel<F> {
    Operations(Seq<ReportModel<F>>),
    WholeTransaction,
}

impl<F> View for TransactionContext<F> {
    type V = ContextModel<F>;

    open spec fn view(&self) -> ContextModel<F> {
        ContextModel {
            tx_hash: self.tx_hash@,
            ledger_sequence: self.ledger_sequence,
            function_name: optional_text(self.function_name),
            arguments: texts(self.arguments@),
            return_value: optional_text(self.return_value),
            fee: self.fee,
            resources: self.resources,
            operation_index: self.operation_index,
            operation_count: self.operation_count,
        }
    }
}

impl View for FailureAttribution {
    type V = AttributionModel;

    open spec fn view(&self) -> AttributionModel {
        AttributionModel {
            contract_address: self.contract_address@,
            function_name: optional_text(self.function_name),
            call_depth: self.call_depth,
            origin_description: self.origin_description@,
        }
    }
}

impl<F> View for OperationReport<F> {
    type V = ReportModel<F>;

    open spec fn view(&self) -> ReportModel<F> {
        ReportModel {
            error_category: self.error_category@,
            error_code: self.error_code,
            error_name: self.error_name@,
            summary: self.summary@,
            transaction_context: self.transaction_context@,
            diagnostic_input: match self.diagnostic_input {
                Some(input) => Some(input.model()),
                None => None,
            },
            resource_input: self.resource_input.model(),
            cross_contract_attribution: match self.cross_contract_attribution {
                Some(attribution) => Some(attribution@),
                None => None,
            },
        }
    }
}

/// The models of several reports.
pub open spec fn report_models<F>(reports: Seq<OperationReport<F>>) -> Seq<ReportModel<F>> {
    Seq::new(reports.len(), |i: int| reports[i]@)
}

impl<F> View for TransactionOutcome<F> {
    type V = OutcomeModel<F>;

    open spec fn view(&self) -> OutcomeModel<F> {
        match *self {
            TransactionOutcome::Operations(reports) => OutcomeModel::Operations(
                report_models(reports@),
            ),
            TransactionOutcome::WholeTransaction => OutcomeModel::WholeTransaction,
        }
    }
}

} // verus!
