//! Observability spans: what is reported of each node execution.
use crate::error::{graph_error_message, GraphError, GraphErrorView};
use crate::graph::{NodeMeta, NodeMetaView};
use crate::money::Eur;
use crate::text::text_option;
use vstd::prelude::*;
use vstd::string::*;

verus! {

/// Status of a node execution span.
#[derive(Debug, Clone, Copy, PartialEq, Eq, Structural)]
pub enum SpanStatus {
    Success,
    Error,
    Cancelled,
    Retrying,
}

/// Why a node did not succeed, as a span reports it.
#[derive(Debug)]
pub enum SpanError {
    /// In words.
    Text(String),
    /// More was spent than allowed: `Budget exceeded: spent .. of .. limit`,
    /// with the amounts rendered by whoever shows it.
    Budget { spent_eur: Eur, limit_eur: Eur },
}

/// The contents of a [`SpanError`].
pub enum SpanErrorView {
    Text(Seq<char>),
    Budget { spent_eur: Eur, limit_eur: Eur },
}

impl View for SpanError {
    type V = SpanErrorView;

    open spec fn view(&self) -> SpanErrorView {
        match self {
            SpanError::Text(text) => SpanErrorView::Text(text@),
            SpanError::Budget { spent_eur, limit_eur } => SpanErrorView::Budget {
                spent_eur: *spent_eur,
                limit_eur: *limit_eur,
            },
        }
    }
}

/// Structured context passed to the span emitter for each node execution event.
#[derive(Debug)]
pub struct SpanContext {
    /// Thread/conversation ID for this execution.
    pub thread_id: String,
    /// Name of the node being executed.
    pub node_name: String,
    /// Checkpoint ID if a checkpoint was saved for this step.
    pub checkpoint_id: Option<String>,
    /// Current retry attempt (0-indexed).
    pub attempt: u8,
    /// Execution duration in milliseconds.
    pub duration_ms: u64,
    /// Cost in EUR if available.
    pub cost_eur: Option<Eur>,
    /// Execution outcome.
    pub status: SpanStatus,
    /// DAG ID if this is a parallel DAG execution.
    pub dag_id: Option<String>,
    /// Error message if the node failed.
    pub error: Option<SpanError>,
    /// Node metadata (tokens, cost, model).
    pub meta: NodeMeta,
}

/// The contents of a [`SpanContext`].
pub struct SpanContextView {
    pub thread_id: Seq<char>,
    pub node_name: Seq<char>,
    pub checkpoint_id: Option<Seq<char>>,
    pub attempt: u8,
    pub duration_ms: u64,
    pub cost_eur: Option<Eur>,
    pub status: SpanStatus,
    pub dag_id: Option<Seq<char>>,
    pub error: Option<SpanErrorView>,
    pub meta: NodeMetaView,
}

/// The contents of an optional span error.
pub open spec fn span_error_option(error: Option<SpanError>) -> Option<SpanErrorView> {
    match error {
        Some(e) => Some(e@),
        None => None,
    }
}

/// A copy of an optional span error.
pub(crate) fn copy_span_error(error: &Option<SpanError>) -> (copy: Option<SpanError>)
    ensures
        span_error_option(copy) == span_error_option(*error),
{
    match error {
        Some(SpanError::Text(text)) => Some(SpanError::Text(text.clone())),
        Some(SpanError::Budget { spent_eur, limit_eur }) => Some(
            SpanError::Budget { spent_eur: *spent_eur, limit_eur: *limit_eur },
        ),
        None => None,
    }
}

/// What a span says of a node error: its words, or the amounts.
pub open spec fn span_error(error: GraphErrorView) -> SpanErrorView {
    match error {
        GraphErrorView::Retryable(reason) => SpanErrorView::Text(reason),
        GraphErrorView::Fatal(reason) => SpanErrorView::Text(reason),
        GraphErrorView::Yield(request) => SpanErrorView::Text(request.message),
        GraphErrorView::BudgetExceeded { spent_eur, limit_eur } => SpanErrorView::Budget {
            spent_eur,
            limit_eur,
        },
        GraphErrorView::YieldInDynamicNode { .. } => SpanErrorView::Text(
            graph_error_message(error),
        ),
    }
}

/// What a span says of a node error.
pub(crate) fn span_error_of(error: &GraphError) -> (said: SpanError)
    ensures
        said@ == span_error(error@),
{
    match error {
        GraphError::Retryable(reason) => SpanError::Text(reason.clone()),
        GraphError::Fatal(reason) => SpanError::Text(reason.clone()),
        GraphError::Yield(request) => SpanError::Text(request.message.clone()),
        GraphError::BudgetExceeded { spent_eur, limit_eur } => SpanError::Budget {
            spent_eur: *spent_eur,
            limit_eur: *limit_eur,
        },
        GraphError::YieldInDynamicNode { .. } => SpanError::Text(error.message()),
    }
}

/// The cost that a span gives for a node error: what was spent, where that
/// exceeded a budget.
pub open spec fn error_cost(error: GraphErrorView) -> Option<Eur> {
    match error {
        GraphErrorView::BudgetExceeded { spent_eur, .. } => Some(spent_eur),
        _ => None,
    }
}

/// The cost that a span gives for a node error.
pub(crate) fn error_cost_of(error: &GraphError) -> (cost: Option<Eur>)
    ensures
        cost == error_cost(error@),
{
    match error {
        GraphError::BudgetExceeded { spent_eur, .. } => Some(*spent_eur),
        _ => None,
    }
}

impl View for SpanContext {
    type V = SpanContextView;

    open spec fn view(&self) -> SpanContextView {
        SpanContextView {
            thread_id: self.thread_id@,
            node_name: self.node_name@,
            checkpoint_id: text_option(self.checkpoint_id),
            attempt: self.attempt,
            duration_ms: self.duration_ms,
            cost_eur: self.cost_eur,
            status: self.status,
            dag_id: text_option(self.dag_id),
            error: span_error_option(self.error),
            meta: self.meta@,
        }
    }
}

/// No-op emitter used when observability is not configured.
#[derive(Debug, Clone, Copy)]
pub struct NoopEmitter;

/// Emitter that logs each span with its context fields.
#[derive(Debug, Clone, Copy)]
pub struct TracingEmitter;

/// How serious a log line is.
#[derive(Debug, Clone, Copy, PartialEq, Eq, Structural)]
pub enum LogLevel {
    Info,
    Warn,
}

/// The level at which a span with a given status is logged: a success as
/// information, anything else as a warning.
pub open spec fn log_level(status: SpanStatus) -> LogLevel {
    if status == SpanStatus::Success {
        LogLevel::Info
    } else {
        LogLevel::Warn
    }
}

/// The message under which a span with a given status is logged.
pub open spec fn log_message(status: SpanStatus) -> Seq<char> {
    match status {
        SpanStatus::Success => "Node completed successfully"@,
        SpanStatus::Retrying => "Node retrying"@,
        SpanStatus::Error => "Node failed"@,
        SpanStatus::Cancelled => "Node cancelled"@,
    }
}

impl TracingEmitter {
    /// The level at which a span is logged.
    pub fn level(&self, span: &SpanContext) -> (level: LogLevel)
        ensures
            level == log_level(span.status),
    {
        match span.status {
            SpanStatus::Success => LogLevel::Info,
            _ => LogLevel::Warn,
        }
    }

    /// The message under which a span is logged.
    pub fn message(&self, span: &SpanContext) -> (message: &'static str)
        ensures
            message@ == log_message(span.status),
    {
        match span.status {
            SpanStatus::Success => "Node completed successfully",
            SpanStatus::Retrying => "Node retrying",
            SpanStatus::Error => "Node failed",
            SpanStatus::Cancelled => "Node cancelled",
        }
    }
}

/// A success is logged as information under its own message, a retry, a failure
/// and a cancellation as warnings under theirs.
pub proof fn law_spans_are_logged_by_status(span: SpanContext, level: LogLevel, message: &'static str)
    requires
        call_ensures(TracingEmitter::level, (&TracingEmitter, &span), level),
        call_ensures(TracingEmitter::message, (&TracingEmitter, &span), message),
    ensures
        level == LogLevel::Info <==> span.status == SpanStatus::Success,
        span.status == SpanStatus::Success ==> message@ == "Node completed successfully"@,
        span.status == SpanStatus::Retrying ==> message@ == "Node retrying"@,
        span.status == SpanStatus::Error ==> message@ == "Node failed"@,
        span.status == SpanStatus::Cancelled ==> message@ == "Node cancelled"@,
{
}

} // verus!
