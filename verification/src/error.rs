//! Error types of nodes and of the orchestrator, and their texts.
use crate::hitl::{request_summary, YieldRequest, YieldRequestView};
use crate::money::Eur;
use crate::text::{decimal, decimal_text, text_list, text_pairs};
use vstd::prelude::*;
use vstd::string::*;

verus! {

/// Node-level execution flow signals.
///
/// Returned by a node to indicate outcomes that affect the graph's control flow
/// (retry, suspend, abort, budget).
#[derive(Debug)]
pub enum GraphError {
    /// A transient error that the retry policy may recover from.
    Retryable(String),
    /// An unrecoverable error that should halt execution immediately.
    Fatal(String),
    /// The node is suspending execution with a structured yield request.
    Yield(YieldRequest),
    /// The node's cost would exceed the configured budget.
    BudgetExceeded { spent_eur: Eur, limit_eur: Eur },
    /// A child node inside a dynamic node attempted to yield (HITL).
    ///
    /// Dynamic execution is atomic: there are no per-child checkpoints to
    /// yield at. Move the yielding node to the top level of the graph instead.
    YieldInDynamicNode { interrupt_id: String },
}

/// The contents of a [`GraphError`].
pub enum GraphErrorView {
    Retryable(Seq<char>),
    Fatal(Seq<char>),
    Yield(YieldRequestView),
    BudgetExceeded { spent_eur: Eur, limit_eur: Eur },
    YieldInDynamicNode { interrupt_id: Seq<char> },
}

impl View for GraphError {
    type V = GraphErrorView;

    open spec fn view(&self) -> GraphErrorView {
        match self {
            GraphError::Retryable(reason) => GraphErrorView::Retryable(reason@),
            GraphError::Fatal(reason) => GraphErrorView::Fatal(reason@),
            GraphError::Yield(request) => GraphErrorView::Yield(request@),
            GraphError::BudgetExceeded { spent_eur, limit_eur } => GraphErrorView::BudgetExceeded {
                spent_eur: *spent_eur,
                limit_eur: *limit_eur,
            },
            GraphError::YieldInDynamicNode { interrupt_id } => GraphErrorView::YieldInDynamicNode {
                interrupt_id: interrupt_id@,
            },
        }
    }
}

/// The text of a node error. Amounts of money have no text here.
pub open spec fn graph_error_message(error: GraphErrorView) -> Seq<char>
    recommends
        !(error is BudgetExceeded),
{
    match error {
        GraphErrorView::Retryable(reason) => "Retryable error: "@ + reason,
        GraphErrorView::Fatal(reason) => "Fatal error: "@ + reason,
        GraphErrorView::Yield(request) => "Suspended/Yielded: "@ + request_summary(request),
        GraphErrorView::BudgetExceeded { .. } => Seq::empty(),
        GraphErrorView::YieldInDynamicNode { interrupt_id }
            => "HITL yield inside dynamic node is not supported (interrupt: '"@ + interrupt_id
            + "'). Move the yielding node to a top-level graph node."@,
    }
}

impl GraphError {
    /// The text of the error. That of an exceeded budget needs the amounts
    /// rendered, which is left to the caller.
    pub fn message(&self) -> (text: String)
        requires
            !(self is BudgetExceeded),
        ensures
            text@ == graph_error_message(self@),
    {
        match self {
            GraphError::Retryable(reason) => {
                let mut text = String::from_str("Retryable error: ");
                text.append(reason.as_str());
                text
            },
            GraphError::Fatal(reason) => {
                let mut text = String::from_str("Fatal error: ");
                text.append(reason.as_str());
                text
            },
            GraphError::Yield(request) => {
                let mut text = String::from_str("Suspended/Yielded: ");
                text.append(request.summary().as_str());
                text
            },
            GraphError::BudgetExceeded { .. } => String::new(),
            GraphError::YieldInDynamicNode { interrupt_id } => {
                let mut text = String::from_str(
                    "HITL yield inside dynamic node is not supported (interrupt: '",
                );
                text.append(interrupt_id.as_str());
                text.append("'). Move the yielding node to a top-level graph node.");
                text
            },
        }
    }
}

impl Clone for GraphError {
    fn clone(&self) -> (error: Self)
        ensures
            error@ == self@,
    {
        match self {
            GraphError::Retryable(reason) => GraphError::Retryable(reason.clone()),
            GraphError::Fatal(reason) => GraphError::Fatal(reason.clone()),
            GraphError::Yield(request) => GraphError::Yield(request.clone()),
            GraphError::BudgetExceeded { spent_eur, limit_eur } => GraphError::BudgetExceeded {
                spent_eur: *spent_eur,
                limit_eur: *limit_eur,
            },
            GraphError::YieldInDynamicNode { interrupt_id } => GraphError::YieldInDynamicNode {
                interrupt_id: interrupt_id.clone(),
            },
        }
    }
}

/// Runner-level errors for the graph orchestrator.
#[derive(Debug)]
#[allow(inconsistent_fields)]
pub enum TakelnError {
    /// A node referenced in the graph or DAG is not registered.
    NodeNotFound(String),
    /// The checkpointer encountered a persistence failure.
    CheckpointError(String),
    /// Cumulative node costs exceeded the configured budget.
    BudgetExceeded { spent_eur: Eur, limit_eur: Eur },
    /// The DAG has pending nodes whose dependencies can never be satisfied.
    DAGDeadlock(String),
    /// A parallel task panicked.
    JoinError(String),
    /// General execution error wrapping node-level failures.
    ExecutionError(String),
    /// State serialization failed during checkpointing.
    SerializationError(String),
    /// State deserialization failed during checkpoint loading.
    DeserializationError(String),
    /// DAG execution exceeded the maximum allowed recursion depth.
    RecursionLimitExceeded { depth: u8, limit: u8 },
    /// Some nodes in a parallel wave failed while others succeeded.
    PartialWaveFailure { succeeded: Vec<String>, failed: Vec<(String, String)> },
    /// Attempted to resume a thread that has no yielded checkpoint.
    NothingToResume(String),
    /// The resume call does not match the pending yield (wrong interrupt_id, etc.).
    InvalidResume(String),
    /// The provided resume input failed schema validation.
    SchemaValidationFailed { interrupt_id: String, reason: String },
    /// Sequential execution exceeded the maximum allowed step count.
    StepLimitExceeded { steps: usize, limit: usize },
}

/// The contents of a [`TakelnError`].
#[allow(inconsistent_fields)]
pub enum TakelnErrorView {
    NodeNotFound(Seq<char>),
    CheckpointError(Seq<char>),
    BudgetExceeded { spent_eur: Eur, limit_eur: Eur },
    DAGDeadlock(Seq<char>),
    JoinError(Seq<char>),
    ExecutionError(Seq<char>),
    SerializationError(Seq<char>),
    DeserializationError(Seq<char>),
    RecursionLimitExceeded { depth: u8, limit: u8 },
    PartialWaveFailure { succeeded: Seq<Seq<char>>, failed: Seq<(Seq<char>, Seq<char>)> },
    NothingToResume(Seq<char>),
    InvalidResume(Seq<char>),
    SchemaValidationFailed { interrupt_id: Seq<char>, reason: Seq<char> },
    StepLimitExceeded { steps: usize, limit: usize },
}

impl View for TakelnError {
    type V = TakelnErrorView;

    open spec fn view(&self) -> TakelnErrorView {
        match self {
            TakelnError::NodeNotFound(t) => TakelnErrorView::NodeNotFound(t@),
            TakelnError::CheckpointError(t) => TakelnErrorView::CheckpointError(t@),
            TakelnError::BudgetExceeded { spent_eur, limit_eur }
                => TakelnErrorView::BudgetExceeded { spent_eur: *spent_eur, limit_eur: *limit_eur },
            TakelnError::DAGDeadlock(t) => TakelnErrorView::DAGDeadlock(t@),
            TakelnError::JoinError(t) => TakelnErrorView::JoinError(t@),
            TakelnError::ExecutionError(t) => TakelnErrorView::ExecutionError(t@),
            TakelnError::SerializationError(t) => TakelnErrorView::SerializationError(t@),
            TakelnError::DeserializationError(t) => TakelnErrorView::DeserializationError(t@),
            TakelnError::RecursionLimitExceeded { depth, limit }
                => TakelnErrorView::RecursionLimitExceeded { depth: *depth, limit: *limit },
            TakelnError::PartialWaveFailure { succeeded, failed }
                => TakelnErrorView::PartialWaveFailure {
                succeeded: text_list(succeeded@),
                failed: text_pairs(failed@),
            },
            TakelnError::NothingToResume(t) => TakelnErrorView::NothingToResume(t@),
            TakelnError::InvalidResume(t) => TakelnErrorView::InvalidResume(t@),
            TakelnError::SchemaValidationFailed { interrupt_id, reason }
                => TakelnErrorView::SchemaValidationFailed {
                interrupt_id: interrupt_id@,
                reason: reason@,
            },
            TakelnError::StepLimitExceeded { steps, limit } => TakelnErrorView::StepLimitExceeded {
                steps: *steps,
                limit: *limit,
            },
        }
    }
}

/// The debug format of a list of texts.
pub uninterp spec fn text_list_debug(texts: Seq<Seq<char>>) -> Seq<char>;

/// The debug format of a vector of strings.
#[verifier::external_body]
pub(crate) fn debug_texts(texts: &Vec<String>) -> (text: String)
    ensures
        text@ == text_list_debug(text_list(texts@)),
{
    format!("{:?}", texts)
}

/// The debug format of a list of pairs of texts.
pub uninterp spec fn text_pairs_debug(pairs: Seq<(Seq<char>, Seq<char>)>) -> Seq<char>;

/// The debug format of a vector of pairs of strings.
#[verifier::external_body]
pub(crate) fn debug_text_pairs(pairs: &Vec<(String, String)>) -> (text: String)
    ensures
        text@ == text_pairs_debug(text_pairs(pairs@)),
{
    format!("{:?}", pairs)
}

/// The text of a runner error. Amounts of money have no text here.
pub open spec fn takeln_error_message(error: TakelnErrorView) -> Seq<char>
    recommends
        !(error is BudgetExceeded),
{
    match error {
        TakelnErrorView::NodeNotFound(t) => "Node '"@ + t + "' not found in graph registry"@,
        TakelnErrorView::CheckpointError(t) => "Checkpoint failure: "@ + t,
        TakelnErrorView::BudgetExceeded { .. } => Seq::empty(),
        TakelnErrorView::DAGDeadlock(t)
            => "DAG deadlock — pending nodes with no satisfied dependencies: "@ + t,
        TakelnErrorView::JoinError(t) => "JoinSet panic: "@ + t,
        TakelnErrorView::ExecutionError(t) => "Execution error: "@ + t,
        TakelnErrorView::SerializationError(t) => "Serialization error: "@ + t,
        TakelnErrorView::DeserializationError(t) => "Deserialization error: "@ + t,
        TakelnErrorView::RecursionLimitExceeded { depth, limit } => "DAG recursion depth "@
            + decimal(depth as nat) + " exceeds global cap "@ + decimal(limit as nat),
        TakelnErrorView::PartialWaveFailure { succeeded, failed } => "Partial wave failure: "@
            + text_list_debug(succeeded) + " succeeded, "@ + text_pairs_debug(failed)
            + " failed"@,
        TakelnErrorView::NothingToResume(t) => "Nothing to resume for thread '"@ + t + "'"@,
        TakelnErrorView::InvalidResume(t) => "Invalid resume: "@ + t,
        TakelnErrorView::SchemaValidationFailed { interrupt_id, reason }
            => "Schema validation failed for interrupt '"@ + interrupt_id + "': "@ + reason,
        TakelnErrorView::StepLimitExceeded { steps, limit } => "Sequential step limit exceeded: "@
            + decimal(steps as nat) + " steps (limit: "@ + decimal(limit as nat) + ")"@,
    }
}

/// `lead` followed by `rest`.
fn prefixed(lead: &str, rest: &str) -> (text: String)
    ensures
        text@ == lead@ + rest@,
{
    let mut text = String::from_str(lead);
    text.append(rest);
    text
}

impl TakelnError {
    /// The text of the error. That of an exceeded budget needs the amounts
    /// rendered, which is left to the caller.
    pub fn message(&self) -> (text: String)
        requires
            !(self is BudgetExceeded),
        ensures
            text@ == takeln_error_message(self@),
    {
        match self {
            TakelnError::NodeNotFound(t) => {
                let mut text = prefixed("Node '", t.as_str());
                text.append("' not found in graph registry");
                text
            },
            TakelnError::CheckpointError(t) => prefixed("Checkpoint failure: ", t.as_str()),
            TakelnError::BudgetExceeded { .. } => String::new(),
            TakelnError::DAGDeadlock(t) => prefixed(
                "DAG deadlock — pending nodes with no satisfied dependencies: ",
                t.as_str(),
            ),
            TakelnError::JoinError(t) => prefixed("JoinSet panic: ", t.as_str()),
            TakelnError::ExecutionError(t) => prefixed("Execution error: ", t.as_str()),
            TakelnError::SerializationError(t) => prefixed("Serialization error: ", t.as_str()),
            TakelnError::DeserializationError(t) => prefixed(
                "Deserialization error: ",
                t.as_str(),
            ),
            TakelnError::RecursionLimitExceeded { depth, limit } => {
                let mut text = prefixed(
                    "DAG recursion depth ",
                    decimal_text(*depth as u64).as_str(),
                );
                text.append(" exceeds global cap ");
                text.append(decimal_text(*limit as u64).as_str());
                text
            },
            TakelnError::PartialWaveFailure { succeeded, failed } => {
                let mut text = prefixed("Partial wave failure: ", debug_texts(succeeded).as_str());
                text.append(" succeeded, ");
                text.append(debug_text_pairs(failed).as_str());
                text.append(" failed");
                text
            },
            TakelnError::NothingToResume(t) => {
                let mut text = prefixed("Nothing to resume for thread '", t.as_str());
                text.append("'");
                text
            },
            TakelnError::InvalidResume(t) => prefixed("Invalid resume: ", t.as_str()),
            TakelnError::SchemaValidationFailed { interrupt_id, reason } => {
                let mut text = prefixed(
                    "Schema validation failed for interrupt '",
                    interrupt_id.as_str(),
                );
                text.append("': ");
                text.append(reason.as_str());
                text
            },
            TakelnError::StepLimitExceeded { steps, limit } => {
                let mut text = prefixed(
                    "Sequential step limit exceeded: ",
                    decimal_text(*steps as u64).as_str(),
                );
                text.append(" steps (limit: ");
                text.append(decimal_text(*limit as u64).as_str());
                text.append(")");
                text
            },
        }
    }
}

/// What errors say: how they came about, followed by the reason they were given.
pub proof fn law_messages_give_the_reason(
    error: GraphError,
    text: String,
    failure: TakelnError,
    told: String,
)
    requires
        !(error is BudgetExceeded),
        call_ensures(GraphError::message, (&error,), text),
        !(failure is BudgetExceeded),
        call_ensures(TakelnError::message, (&failure,), told),
    ensures
        error matches GraphError::Retryable(reason) ==> text@ == "Retryable error: "@ + reason@,
        error matches GraphError::Fatal(reason) ==> text@ == "Fatal error: "@ + reason@,
        error matches GraphError::Yield(request) ==> text@ == "Suspended/Yielded: "@ + "["@
            + request.interrupt_id@ + "] "@ + request.message@,
        failure matches TakelnError::NodeNotFound(name) ==> told@ == "Node '"@ + name@
            + "' not found in graph registry"@,
        failure matches TakelnError::CheckpointError(reason) ==> told@ == "Checkpoint failure: "@
            + reason@,
        failure matches TakelnError::DAGDeadlock(names) ==> told@
            == "DAG deadlock — pending nodes with no satisfied dependencies: "@ + names@,
        failure matches TakelnError::JoinError(reason) ==> told@ == "JoinSet panic: "@ + reason@,
        failure matches TakelnError::ExecutionError(reason) ==> told@ == "Execution error: "@
            + reason@,
        failure matches TakelnError::SerializationError(reason) ==> told@
            == "Serialization error: "@ + reason@,
        failure matches TakelnError::DeserializationError(reason) ==> told@
            == "Deserialization error: "@ + reason@,
        failure matches TakelnError::NothingToResume(thread) ==> told@
            == "Nothing to resume for thread '"@ + thread@ + "'"@,
        failure matches TakelnError::InvalidResume(reason) ==> told@ == "Invalid resume: "@
            + reason@,
        failure matches TakelnError::SchemaValidationFailed { interrupt_id, reason } ==> told@
            == "Schema validation failed for interrupt '"@ + interrupt_id@ + "': "@ + reason@,
        failure matches TakelnError::StepLimitExceeded { steps, limit } ==> told@
            == "Sequential step limit exceeded: "@ + decimal(steps as nat) + " steps (limit: "@
            + decimal(limit as nat) + ")"@,
        failure matches TakelnError::RecursionLimitExceeded { depth, limit } ==> told@
            == "DAG recursion depth "@ + decimal(depth as nat) + " exceeds global cap "@ + decimal(
            limit as nat,
        ),
        failure matches TakelnError::PartialWaveFailure { succeeded, failed } ==> told@
            == "Partial wave failure: "@ + text_list_debug(text_list(succeeded@)) + " succeeded, "@
            + text_pairs_debug(text_pairs(failed@)) + " failed"@,
{
    if error is Yield {
        let request = error->Yield_0;
        assert("Suspended/Yielded: "@ + ("["@ + request.interrupt_id@ + "] "@ + request.message@)
            =~= "Suspended/Yielded: "@ + "["@ + request.interrupt_id@ + "] "@ + request.message@);
    }
}

} // verus!
