//! Sequential execution: one node after the other, along the edges.
//!
//! A run is a value that passes through phases. Each phase says what its
//! surroundings are to do (call a node, save a checkpoint) and takes the outcome
//! back to get to the next phase:
//!
//! ```text
//! SequentialRun --step--> NodeCall --succeed--> CompletedStep --saved--> SequentialRun
//!                            |  ^ fail: try again
//!                            +--fail--> YieldedStep
//! ```
//!
//! What a node did is made known once its checkpoint is saved, so that spans and
//! records name the checkpoint; where saving fails, without one.
use crate::checkpoint::{SaveRequest, SaveRequestView};
use crate::checkpoint_meta::CheckpointStatus;
use crate::clock::{duration_debug, duration_ms, duration_text, elapsed_ms, TimeSpan, Timestamp};
use crate::context::NodeContext;
use crate::effects::{
    add_effect, add_report, checkpoint_saved, complete_effect, effect_list, graph_complete, graph_finished,
    graph_finished_effect, no_effects, node_started, one_effect, reported, saved_effect,
    started_effect, step_effects, step_reported, Effect, NodeReport, NodeReportView,
};
use crate::emitter::{
    error_cost, error_cost_of, span_error, span_error_of, span_error_option, SpanError,
    SpanErrorView, SpanStatus,
};
use crate::error::{GraphError, GraphErrorView, TakelnError, TakelnErrorView};
use crate::graph::{
    answers, end_name, no_meta, number_after, routes_to, EventSequence, Graph, GraphView, NodeMeta,
    NodeMetaView, NodeOutput,
};
use crate::hitl::{copy_text, ResumeMode, YieldRequest, YieldRequestView};
use crate::identity::{hyphenated, is_random_id};
use crate::json::JsonValue;
use crate::money::{amount_or_zero, or_zero, over, Eur};
use crate::retry::RetryPolicy;
use crate::text::{same_text, text_option};
use tokio_util::sync::CancellationToken;
use vstd::prelude::*;
use vstd::string::*;

verus! {

/// A sequential run between two steps.
pub struct SequentialRun<S> {
    /// The thread that checkpoints are saved under.
    pub thread_id: String,
    /// The state so far.
    pub state: S,
    /// The size of the state as a checkpoint payload.
    pub state_bytes: usize,
    /// The node to execute next.
    pub node: String,
    /// How many steps were begun.
    pub steps: usize,
    /// Whether a node was executed in this run.
    pub entered: bool,
    /// What the nodes of this run cost so far.
    pub spent: Eur,
    /// The checkpoint that the next node sees: the one saved last in this run,
    /// or the one that the first node of a resumed run saw before.
    pub last_checkpoint_id: Option<String>,
    /// The input of a resume that the first call is given.
    pub pending_input: Option<JsonValue>,
    /// The interrupt that this run resolves.
    pub resolved_interrupt: Option<String>,
}

/// A node about to be called, or called again.
pub struct NodeCall<S> {
    pub run: SequentialRun<S>,
    /// Whether the node is a dynamic one, which is neither retried nor timed.
    pub dynamic: bool,
    /// The attempt, counted from zero.
    pub attempt: u8,
    pub started_at: Timestamp,
    pub retry: RetryPolicy,
    pub timeout: Option<TimeSpan>,
    pub node_budget: Option<Eur>,
}

/// A node that succeeded, whose checkpoint is about to be saved.
pub struct CompletedStep<S> {
    pub run: SequentialRun<S>,
    pub next_node: String,
    pub report: NodeReport,
}

/// A node that yielded, whose checkpoint is about to be saved.
pub struct YieldedStep<S> {
    pub run: SequentialRun<S>,
    pub report: NodeReport,
}

/// How a step begins.
pub enum Next<S> {
    /// The run ends with an error.
    Failed(TakelnError),
    /// The run ends with a state.
    Finished { state: S, effects: Vec<Effect> },
    /// The run ends with its state, once the checkpoint is saved.
    Paused { run: SequentialRun<S>, save: SaveRequest },
    /// The run resolved an interrupt without executing a node; it ends with its
    /// state, once the checkpoint that says so is saved.
    Closing { run: SequentialRun<S>, save: SaveRequest },
    /// The node is to be called.
    Call { call: NodeCall<S>, effects: Vec<Effect> },
}

/// What follows a call that did not succeed.
pub enum AfterFailure<S> {
    /// The node is to be called again, after the delay of the call.
    Retry { call: NodeCall<S>, effects: Vec<Effect> },
    /// The run ends with an error.
    Failed { error: TakelnError, effects: Vec<Effect> },
    /// The run ends with its state, once the checkpoint is saved.
    Yielded { step: YieldedStep<S>, save: SaveRequest },
}

/// What follows a call that succeeded.
pub enum AfterSuccess<S> {
    /// The run ends with an error.
    Failed { error: TakelnError, effects: Vec<Effect> },
    /// The checkpoint of the step is to be saved.
    Completed { step: CompletedStep<S>, save: SaveRequest },
}

/// What follows the checkpoint of a step.
pub enum AfterSave<S> {
    /// The run goes on.
    Continue { run: SequentialRun<S>, effects: Vec<Effect> },
    /// The run ends with its state.
    Paused { state: S, effects: Vec<Effect> },
}

/// Whether `next` is how a step of `run` begins, at time `now` and with `n` as
/// the number of the next event.
pub open spec fn is_next<S, N, D, C>(
    graph: GraphView<N, D, C>,
    run: SequentialRun<S>,
    now: Timestamp,
    n: u64,
    next: Next<S>,
) -> bool {
    let limit = graph.resource_limits.max_sequential_steps;
    let name = run.node@;
    let begun = SequentialRun { steps: (run.steps + 1) as usize, ..run };
    if run.steps >= limit {
        next matches Next::Failed(error) && error@ == (TakelnErrorView::StepLimitExceeded {
            steps: run.steps,
            limit,
        })
    } else if name == end_name() && !run.entered && run.resolved_interrupt is Some {
        if graph.fits(run.state_bytes) {
            next matches Next::Closing { run: closing, save } && closing == begun && save@ == (
            SaveRequestView {
                thread_id: run.thread_id@,
                next_node: end_name(),
                status: CheckpointStatus::Complete,
                yield_request: None,
                claimed_interrupt: None,
                resolved_interrupt: text_option(run.resolved_interrupt),
            })
        } else {
            next matches Next::Failed(error) && error@ == graph.too_large(run.state_bytes)
        }
    } else if name == end_name() {
        next matches Next::Finished { state, effects } && state == run.state && effect_list(
            effects@,
        ) == seq![
            graph_complete(run.thread_id@, run.spent),
            graph_finished(run.thread_id@, run.spent, n),
        ]
    } else if run.entered && graph.interrupt_before.contains(name) {
        if graph.fits(run.state_bytes) {
            next matches Next::Paused { run: paused, save } && paused == begun && save@ == (
            SaveRequestView {
                thread_id: run.thread_id@,
                next_node: name,
                status: CheckpointStatus::Interrupted,
                yield_request: None,
                claimed_interrupt: None,
                resolved_interrupt: text_option(run.resolved_interrupt),
            })
        } else {
            next matches Next::Failed(error) && error@ == graph.too_large(run.state_bytes)
        }
    } else if !graph.registered(name) {
        next matches Next::Failed(error) && error@ == TakelnErrorView::NodeNotFound(name)
    } else {
        next matches Next::Call { call, effects } && call == (NodeCall {
            run: SequentialRun { entered: true, ..begun },
            dynamic: graph.dynamic_nodes.contains_key(name),
            attempt: 0,
            started_at: now,
            retry: graph.retry_for(name),
            timeout: graph.timeout_for(name),
            node_budget: graph.node_budget(name),
        }) && effect_list(effects@) == seq![node_started(run.thread_id@, name, now, n)]
    }
}

/// How many events the beginning of a step publishes.
pub open spec fn next_events<S>(next: Next<S>) -> nat {
    if next is Finished || next is Call {
        1
    } else {
        0
    }
}

/// The number of the next event after `count` more.
pub open spec fn numbered(n: u64, count: nat) -> u64
    decreases count,
{
    if count == 0 {
        n
    } else {
        number_after(numbered(n, (count - 1) as nat))
    }
}

impl<S> SequentialRun<S> {
    /// A run that is about to execute `start_node`, which sees the given
    /// checkpoint.
    pub(crate) fn begin(
        thread_id: &str,
        state: S,
        state_bytes: usize,
        start_node: &str,
        last_checkpoint_id: Option<String>,
        resumed_input: Option<JsonValue>,
        resolved_interrupt: Option<String>,
    ) -> (run: Self)
        ensures
            run.thread_id@ == thread_id@,
            run.state == state,
            run.state_bytes == state_bytes,
            run.node@ == start_node@,
            run.steps == 0,
            !run.entered,
            run.spent.bits == 0,
            run.last_checkpoint_id == last_checkpoint_id,
            run.pending_input == resumed_input,
            run.resolved_interrupt == resolved_interrupt,
    {
        SequentialRun {
            thread_id: thread_id.to_owned(),
            state,
            state_bytes,
            node: start_node.to_owned(),
            steps: 0,
            entered: false,
            spent: Eur::zero(),
            last_checkpoint_id,
            pending_input: resumed_input,
            resolved_interrupt,
        }
    }

    /// Begins the next step.
    ///
    /// A run that took as many steps as allowed fails; one that reached the end
    /// finishes, after a checkpoint where an interrupt was resolved and no node
    /// executed since; one that comes to a node with an interrupt before it, other
    /// than the first node, pauses; otherwise the node is called.
    pub fn step<N, D, C>(
        self,
        graph: &Graph<N, D, C>,
        now: Timestamp,
        events: &mut EventSequence,
    ) -> (next: Next<S>)
        ensures
            is_next(graph@, self, now, old(events).next, next),
            final(events).next == numbered(old(events).next, next_events(next)),
    {
        proof {
            reveal_with_fuel(numbered, 2);
        }
        let limit: usize = graph.limits().max_sequential_steps;
        if self.steps >= limit {
            return Next::Failed(TakelnError::StepLimitExceeded { steps: self.steps, limit });
        }
        let steps: usize = self.steps + 1;
        if same_text(self.node.as_str(), "__END__") {
            if !self.entered && self.resolved_interrupt.is_some() {
                match graph.check_checkpoint_size(self.state_bytes) {
                    Err(error) => {
                        return Next::Failed(error);
                    },
                    Ok(()) => {},
                }
                let save = SaveRequest {
                    thread_id: self.thread_id.clone(),
                    next_node: "__END__".to_owned(),
                    status: CheckpointStatus::Complete,
                    yield_request: None,
                    claimed_interrupt: None,
                    resolved_interrupt: copy_text(&self.resolved_interrupt),
                };
                return Next::Closing { run: SequentialRun { steps, ..self }, save };
            }
            let mut effects = one_effect(complete_effect(self.thread_id.as_str(), self.spent));
            let number: u64 = events.next_seq();
            add_effect(
                &mut effects,
                graph_finished_effect(self.thread_id.as_str(), self.spent, number),
            );
            assert(effect_list(effects@) =~= seq![
                graph_complete(self.thread_id@, self.spent),
                graph_finished(self.thread_id@, self.spent, number),
            ]);
            return Next::Finished { state: self.state, effects };
        }
        if self.entered && graph.interrupts_before(self.node.as_str()) {
            match graph.check_checkpoint_size(self.state_bytes) {
                Err(error) => {
                    return Next::Failed(error);
                },
                Ok(()) => {},
            }
            let save = SaveRequest {
                thread_id: self.thread_id.clone(),
                next_node: self.node.clone(),
                status: CheckpointStatus::Interrupted,
                yield_request: None,
                claimed_interrupt: None,
                resolved_interrupt: copy_text(&self.resolved_interrupt),
            };
            return Next::Paused { run: SequentialRun { steps, ..self }, save };
        }
        if !graph.is_registered(self.node.as_str()) {
            return Next::Failed(TakelnError::NodeNotFound(self.node));
        }
        let dynamic = graph.is_dynamic(self.node.as_str());
        let config = graph.effective_config(self.node.as_str());
        let number: u64 = events.next_seq();
        let effects = one_effect(
            started_effect(self.thread_id.as_str(), self.node.as_str(), now, number),
        );
        let call = NodeCall {
            run: SequentialRun { steps, entered: true, ..self },
            dynamic,
            attempt: 0,
            started_at: now,
            retry: config.0,
            timeout: config.1,
            node_budget: config.2,
        };
        Next::Call { call, effects }
    }

    /// Takes back that the checkpoint of a pause was saved.
    pub fn paused(self, checkpoint_id: &str) -> (ended: (S, Vec<Effect>))
        ensures
            ended.0 == self.state,
            effect_list(ended.1@) == seq![checkpoint_saved(self.thread_id@, checkpoint_id@)],
    {
        let effects = one_effect(saved_effect(self.thread_id.as_str(), checkpoint_id));
        (self.state, effects)
    }

    /// Takes back that the checkpoint of the end was saved.
    pub fn closed(self, checkpoint_id: &str, events: &mut EventSequence) -> (ended: (
        S,
        Vec<Effect>,
    ))
        ensures
            ended.0 == self.state,
            effect_list(ended.1@) == seq![
                checkpoint_saved(self.thread_id@, checkpoint_id@),
                graph_complete(self.thread_id@, self.spent),
                graph_finished(self.thread_id@, self.spent, old(events).next),
            ],
            final(events).next == number_after(old(events).next),
    {
        let thread = self.thread_id.as_str();
        let mut effects = one_effect(saved_effect(thread, checkpoint_id));
        add_effect(&mut effects, complete_effect(thread, self.spent));
        let number: u64 = events.next_seq();
        add_effect(&mut effects, graph_finished_effect(thread, self.spent, number));
        assert(effect_list(effects@) =~= seq![
            checkpoint_saved(self.thread_id@, checkpoint_id@),
            graph_complete(self.thread_id@, self.spent),
            graph_finished(self.thread_id@, self.spent, number),
        ]);
        (self.state, effects)
    }
}

/// The error of a node that took longer than its time limit.
pub open spec fn timed_out(node: Seq<char>, timeout: TimeSpan) -> GraphErrorView {
    GraphErrorView::Fatal(
        "Node '"@ + node + "' timed out after "@ + duration_debug(timeout.secs, timeout.nanos),
    )
}

/// The error of a node that took longer than its time limit.
pub fn timeout_error(node: &str, timeout: TimeSpan) -> (error: GraphError)
    requires
        timeout.wf(),
    ensures
        error@ == timed_out(node@, timeout),
{
    let mut text = String::from_str("Node '");
    text.append(node);
    text.append("' timed out after ");
    text.append(duration_text(timeout).as_str());
    GraphError::Fatal(text)
}

/// The outcome of a node that was cancelled: it yields.
pub fn cancelled_error() -> (error: GraphError)
    ensures
        error@ == GraphErrorView::Yield(
            (YieldRequestView {
                interrupt_id: "Cancelled"@,
                message: "Cancelled"@,
                schema: None,
                resume_mode: ResumeMode::ReEntry,
                payload_ref: None,
            }),
        ),
{
    GraphError::Yield(YieldRequest::simple("Cancelled"))
}

/// Whether a node that failed is tried again: only a regular one, only after a
/// retryable error, and only while attempts are left.
pub open spec fn tries_again(
    dynamic: bool,
    attempt: u8,
    retry: RetryPolicy,
    error: GraphErrorView,
) -> bool {
    !dynamic && error is Retryable && attempt + 1 < retry.max_attempts
}

/// The text of the error that ends a run at a node that failed in words.
pub open spec fn failure_text(node: Seq<char>, error: GraphErrorView) -> Seq<char> {
    match error {
        GraphErrorView::Retryable(reason) => "Node "@ + node
            + " failed (retryable) after max attempts: "@ + reason,
        GraphErrorView::Fatal(reason) => "Node "@ + node + " failed fatally: "@ + reason,
        GraphErrorView::YieldInDynamicNode { interrupt_id }
            => "HITL yield inside dynamic node is not supported (node: '"@ + node
            + "', interrupt: '"@ + interrupt_id
            + "'). Move the yielding node to a top-level graph node."@,
        _ => Seq::empty(),
    }
}

/// The error that ends a run at a node that failed.
pub open spec fn run_error(node: Seq<char>, error: GraphErrorView) -> TakelnErrorView {
    match error {
        GraphErrorView::BudgetExceeded { spent_eur, limit_eur } => TakelnErrorView::BudgetExceeded {
            spent_eur,
            limit_eur,
        },
        _ => TakelnErrorView::ExecutionError(failure_text(node, error)),
    }
}

/// The error that ends a run at a node that failed.
fn run_error_of(node: &str, error: &GraphError) -> (failure: TakelnError)
    requires
        !(error@ is Yield),
    ensures
        failure@ == run_error(node@, error@),
{
    match error {
        GraphError::BudgetExceeded { spent_eur, limit_eur } => TakelnError::BudgetExceeded {
            spent_eur: *spent_eur,
            limit_eur: *limit_eur,
        },
        GraphError::Retryable(reason) => {
            let mut text = String::from_str("Node ");
            text.append(node);
            text.append(" failed (retryable) after max attempts: ");
            text.append(reason.as_str());
            TakelnError::ExecutionError(text)
        },
        GraphError::Fatal(reason) => {
            let mut text = String::from_str("Node ");
            text.append(node);
            text.append(" failed fatally: ");
            text.append(reason.as_str());
            TakelnError::ExecutionError(text)
        },
        GraphError::YieldInDynamicNode { interrupt_id } => {
            let mut text = String::from_str(
                "HITL yield inside dynamic node is not supported (node: '",
            );
            text.append(node);
            text.append("', interrupt: '");
            text.append(interrupt_id.as_str());
            text.append("'). Move the yielding node to a top-level graph node.");
            TakelnError::ExecutionError(text)
        },
        GraphError::Yield(_) => TakelnError::ExecutionError(String::new()),
    }
}

/// What is known of a call that ended.
pub open spec fn call_report<S>(
    call: NodeCall<S>,
    duration_ms: u64,
    cost_eur: Option<Eur>,
    status: SpanStatus,
    error: Option<SpanErrorView>,
    meta: NodeMetaView,
) -> NodeReportView {
    NodeReportView {
        thread_id: call.run.thread_id@,
        node_name: call.name(),
        dag_id: None,
        attempt: call.attempt,
        started_at: call.started_at,
        duration_ms,
        cost_eur,
        status,
        error,
        meta,
    }
}

impl<S> NodeCall<S> {
    /// The name of the node.
    pub open spec fn name(self) -> Seq<char> {
        self.run.node@
    }

    /// How long to wait before this call: not at all before the first one, then
    /// as the retry policy says for the attempt before.
    pub fn delay(&self) -> (delay: TimeSpan)
        ensures
            delay.wf(),
            exists|draw: u64|
                delay.total_nanos() == #[trigger] self.retry.wait_ms(self.attempt, draw)
                    * 1_000_000,
            self.attempt == 0 ==> delay.total_nanos() == 0,
            self.attempt > 0 && !self.retry.jitter ==> delay.total_nanos()
                == self.retry.plain_delay((self.attempt - 1) as u8) * 1_000_000,
    {
        self.retry.wait_before(self.attempt)
    }

    fn report(
        &self,
        duration_ms: u64,
        cost_eur: Option<Eur>,
        status: SpanStatus,
        error: Option<SpanError>,
        meta: NodeMeta,
    ) -> (report: NodeReport)
        ensures
            report@ == call_report(
                *self,
                duration_ms,
                cost_eur,
                status,
                span_error_option(error),
                meta@,
            ),
    {
        NodeReport {
            thread_id: self.run.thread_id.clone(),
            node_name: self.run.node.clone(),
            dag_id: None,
            attempt: self.attempt,
            started_at: self.started_at,
            duration_ms,
            cost_eur,
            status,
            error,
            meta,
        }
    }

    /// The context of this call. The input of a resume goes to the first call
    /// alone.
    pub fn context(
        &mut self,
        budget_remaining_eur: Option<Eur>,
        cancellation: Option<CancellationToken>,
    ) -> (context: NodeContext)
        ensures
            context.keyed(),
            context.thread_id == old(self).run.thread_id,
            context.node_name == old(self).run.node,
            context.attempt == old(self).attempt,
            exists|id: u128| is_random_id(id) && context.attempt_id@ == #[trigger] hyphenated(id),
            context.last_checkpoint_id == old(self).run.last_checkpoint_id,
            context.budget_remaining_eur == budget_remaining_eur,
            context.cancellation == cancellation,
            context.resumed_input == old(self).run.pending_input,
            *final(self) == (NodeCall {
                run: SequentialRun { pending_input: None, ..old(self).run },
                ..*old(self)
            }),
    {
        let input = self.run.pending_input.take();
        NodeContext::new(
            self.run.thread_id.clone(),
            self.run.node.clone(),
            self.attempt,
            copy_text(&self.run.last_checkpoint_id),
            budget_remaining_eur,
            cancellation,
            input,
        )
    }
}

/// Whether `after` is what follows a call that did not succeed.
pub open spec fn is_failure<S, N, D, C>(
    graph: GraphView<N, D, C>,
    call: NodeCall<S>,
    error: GraphErrorView,
    now: Timestamp,
    n: u64,
    after: AfterFailure<S>,
) -> bool {
    let thread = call.run.thread_id@;
    let name = call.name();
    let took = duration_ms(call.started_at, now);
    let said = Some(span_error(error));
    if tries_again(call.dynamic, call.attempt, call.retry, error) {
        let report = call_report(call, took, None, SpanStatus::Retrying, said, no_meta());
        after matches AfterFailure::Retry { call: again, effects } && again == (NodeCall {
            attempt: (call.attempt + 1) as u8,
            ..call
        }) && effect_list(effects@) == reported(report, None)
    } else {
        match error {
            GraphErrorView::Yield(request) => {
                let report = call_report(call, took, None, SpanStatus::Cancelled, said, no_meta());
                if graph.fits(call.run.state_bytes) {
                    after matches AfterFailure::Yielded { step, save } && step.run == call.run
                        && step.report@ == report && save@ == (SaveRequestView {
                        thread_id: thread,
                        next_node: name,
                        status: CheckpointStatus::Yielded,
                        yield_request: Some(request),
                        claimed_interrupt: None,
                        resolved_interrupt: None,
                    })
                } else {
                    after matches AfterFailure::Failed { error: failure, effects } && failure@
                        == graph.too_large(call.run.state_bytes) && effect_list(effects@)
                        == step_reported(report, None, "yielded"@, None, n)
                }
            },
            _ => {
                let report = call_report(
                    call,
                    took,
                    error_cost(error),
                    SpanStatus::Error,
                    said,
                    no_meta(),
                );
                after matches AfterFailure::Failed { error: failure, effects } && failure@
                    == run_error(name, error) && effect_list(effects@) == step_reported(
                    report,
                    None,
                    "failed"@,
                    None,
                    n,
                )
            },
        }
    }
}

/// How many events a failure publishes.
pub open spec fn failure_events<S>(after: AfterFailure<S>) -> nat {
    if after is Failed {
        1
    } else {
        0
    }
}

impl<S> NodeCall<S> {
    /// Takes back that the call did not succeed.
    pub fn fail<N, D, C>(
        self,
        error: GraphError,
        now: Timestamp,
        graph: &Graph<N, D, C>,
        events: &mut EventSequence,
    ) -> (after: AfterFailure<S>)
        ensures
            is_failure(graph@, self, error@, now, old(events).next, after),
            final(events).next == numbered(old(events).next, failure_events(after)),
    {
        proof {
            reveal_with_fuel(numbered, 2);
        }
        let took: u64 = elapsed_ms(self.started_at, now);
        let said = span_error_of(&error);
        match &error {
            GraphError::Retryable(_) => {
                if !self.dynamic {
                    let attempt: u8 = self.attempt.saturating_add(1);
                    if attempt < self.retry.max_attempts {
                        let report = self.report(
                            took,
                            None,
                            SpanStatus::Retrying,
                            Some(said),
                            NodeMeta::default(),
                        );
                        let mut effects = no_effects();
                        add_report(&mut effects, &report, &None);
                        assert(effect_list(effects@) =~= reported(report@, None));
                        return AfterFailure::Retry { call: NodeCall { attempt, ..self }, effects };
                    }
                }
            },
            _ => {},
        }
        match error {
            GraphError::Yield(request) => {
                let report = self.report(
                    took,
                    None,
                    SpanStatus::Cancelled,
                    Some(said),
                    NodeMeta::default(),
                );
                match graph.check_checkpoint_size(self.run.state_bytes) {
                    Err(error) => {
                        let number: u64 = events.next_seq();
                        let effects = step_effects(&report, &None, "yielded", None, number);
                        AfterFailure::Failed { error, effects }
                    },
                    Ok(()) => {
                        let save = SaveRequest {
                            thread_id: self.run.thread_id.clone(),
                            next_node: self.run.node.clone(),
                            status: CheckpointStatus::Yielded,
                            yield_request: Some(request),
                            claimed_interrupt: None,
                            resolved_interrupt: None,
                        };
                        AfterFailure::Yielded { step: YieldedStep { run: self.run, report }, save }
                    },
                }
            },
            other => {
                let report = self.report(
                    took,
                    error_cost_of(&other),
                    SpanStatus::Error,
                    Some(said),
                    NodeMeta::default(),
                );
                let number: u64 = events.next_seq();
                let effects = step_effects(&report, &None, "failed", None, number);
                AfterFailure::Failed {
                    error: run_error_of(self.run.node.as_str(), &other),
                    effects,
                }
            },
        }
    }
}

impl<S> YieldedStep<S> {
    /// Takes back that the checkpoint of the step was saved: the run ends with
    /// its state.
    pub fn saved(self, checkpoint_id: String, events: &mut EventSequence) -> (ended: (
        S,
        Vec<Effect>,
    ))
        ensures
            ended.0 == self.run.state,
            effect_list(ended.1@) == step_reported(
                self.report@,
                Some(checkpoint_id@),
                "yielded"@,
                None,
                old(events).next,
            ),
            final(events).next == number_after(old(events).next),
    {
        let number: u64 = events.next_seq();
        let effects = step_effects(&self.report, &Some(checkpoint_id), "yielded", None, number);
        (self.run.state, effects)
    }

    /// Takes back that the checkpoint of the step could not be saved.
    pub fn not_saved(&self, events: &mut EventSequence) -> (effects: Vec<Effect>)
        ensures
            effect_list(effects@) == step_reported(
                self.report@,
                None,
                "yielded"@,
                None,
                old(events).next,
            ),
            final(events).next == number_after(old(events).next),
    {
        let number: u64 = events.next_seq();
        step_effects(&self.report, &None, "yielded", None, number)
    }
}

/// Whether `after` is what follows a call that succeeded with `output`, after
/// which `spent` is what the run cost.
pub open spec fn is_success<S, N, D, C: Fn(&S) -> String>(
    graph: GraphView<N, D, C>,
    call: NodeCall<S>,
    output: NodeOutput<S>,
    state_bytes: usize,
    spent: Eur,
    now: Timestamp,
    n: u64,
    after: AfterSuccess<S>,
) -> bool {
    let thread = call.run.thread_id@;
    let name = call.name();
    let took = duration_ms(call.started_at, now);
    let cost = output.meta.cost_eur;
    if over(call.node_budget, amount_or_zero(cost)) {
        after matches AfterSuccess::Failed { error, effects } && error@ == (
        TakelnErrorView::BudgetExceeded {
            spent_eur: amount_or_zero(cost),
            limit_eur: call.node_budget->0,
        }) && effect_list(effects@) == step_reported(
            over_budget_report(call, took, amount_or_zero(cost), call.node_budget->0),
            None,
            "failed"@,
            cost,
            n,
        )
    } else if over(graph.budget_eur, spent) {
        after matches AfterSuccess::Failed { error, effects } && error@ == (
        TakelnErrorView::BudgetExceeded { spent_eur: spent, limit_eur: graph.budget_eur->0 })
            && effect_list(effects@) == step_reported(
            over_budget_report(call, took, spent, graph.budget_eur->0),
            None,
            "failed"@,
            cost,
            n,
        )
    } else {
        let report = call_report(call, took, cost, SpanStatus::Success, None, output.meta@);
        if graph.fits(state_bytes) {
            after matches AfterSuccess::Completed { step, save } && step.run == (SequentialRun {
                state: output.state,
                state_bytes,
                spent,
                ..call.run
            }) && chooses_next(graph, call, output, step.next_node@) && step.report@ == report
                && save@ == (SaveRequestView {
                thread_id: thread,
                next_node: step.next_node@,
                status: if graph.interrupt_after.contains(name) {
                    CheckpointStatus::Interrupted
                } else {
                    CheckpointStatus::Complete
                },
                yield_request: None,
                claimed_interrupt: None,
                resolved_interrupt: text_option(call.run.resolved_interrupt),
            })
        } else {
            after matches AfterSuccess::Failed { error, effects } && error@ == graph.too_large(
                state_bytes,
            ) && effect_list(effects@) == step_reported(report, None, "success"@, cost, n)
        }
    }
}

/// What is known of a call that spent more than allowed.
pub open spec fn over_budget_report<S>(
    call: NodeCall<S>,
    took: u64,
    spent_eur: Eur,
    limit_eur: Eur,
) -> NodeReportView {
    call_report(
        call,
        took,
        Some(spent_eur),
        SpanStatus::Error,
        Some(SpanErrorView::Budget { spent_eur, limit_eur }),
        no_meta(),
    )
}

/// How many events a success publishes before its checkpoint is saved.
pub open spec fn success_events<S>(after: AfterSuccess<S>) -> nat {
    if after is Failed {
        1
    } else {
        0
    }
}

/// Whether a node that succeeded goes on to `next`: to the node that its event
/// names, or else along its edge, asked about the new state.
pub open spec fn chooses_next<S, N, D, C: Fn(&S) -> String>(
    graph: GraphView<N, D, C>,
    call: NodeCall<S>,
    output: NodeOutput<S>,
    next: Seq<char>,
) -> bool {
    match output.event {
        Some(target) => next == target@,
        None => routes_to::<S, C>(graph.edges, call.name(), output.state, next),
    }
}

impl<S> NodeCall<S> {
    /// Takes back that the call succeeded. `state_bytes` is the size of the new
    /// state, `spent` what the run has cost with this node.
    pub fn succeed<N, D, C: Fn(&S) -> String>(
        self,
        output: NodeOutput<S>,
        state_bytes: usize,
        spent: Eur,
        now: Timestamp,
        graph: &Graph<N, D, C>,
        events: &mut EventSequence,
    ) -> (after: AfterSuccess<S>)
        requires
            answers::<S, C>(graph@.edges),
        ensures
            is_success(
                graph@,
                self,
                output,
                state_bytes,
                spent,
                now,
                old(events).next,
                after,
            ),
            final(events).next == numbered(old(events).next, success_events(after)),
    {
        proof {
            reveal_with_fuel(numbered, 2);
        }
        let took: u64 = elapsed_ms(self.started_at, now);
        let cost = output.meta.cost_eur;
        match self.node_budget {
            Some(limit) => {
                let own = or_zero(cost);
                if own.exceeds(&limit) {
                    return self.over_budget(own, limit, took, cost, events);
                }
            },
            None => {},
        }
        match graph.budget() {
            Some(limit) => {
                if spent.exceeds(&limit) {
                    return self.over_budget(spent, limit, took, cost, events);
                }
            },
            None => {},
        }
        let report = self.report(took, cost, SpanStatus::Success, None, output.meta);
        let next_node = match output.event {
            Some(target) => target,
            None => graph.route(self.run.node.as_str(), &output.state),
        };
        match graph.check_checkpoint_size(state_bytes) {
            Err(error) => {
                let number: u64 = events.next_seq();
                let effects = step_effects(&report, &None, "success", cost, number);
                AfterSuccess::Failed { error, effects }
            },
            Ok(()) => {
                let status = if graph.interrupts_after(self.run.node.as_str()) {
                    CheckpointStatus::Interrupted
                } else {
                    CheckpointStatus::Complete
                };
                let save = SaveRequest {
                    thread_id: self.run.thread_id.clone(),
                    next_node: next_node.clone(),
                    status,
                    yield_request: None,
                    claimed_interrupt: None,
                    resolved_interrupt: copy_text(&self.run.resolved_interrupt),
                };
                let run = SequentialRun { state: output.state, state_bytes, spent, ..self.run };
                AfterSuccess::Completed { step: CompletedStep { run, next_node, report }, save }
            },
        }
    }

    /// Ends the run after more was spent than allowed.
    fn over_budget(
        &self,
        spent_eur: Eur,
        limit_eur: Eur,
        took: u64,
        cost: Option<Eur>,
        events: &mut EventSequence,
    ) -> (after: AfterSuccess<S>)
        ensures
            after matches AfterSuccess::Failed { error, effects } && error@ == (
            TakelnErrorView::BudgetExceeded { spent_eur, limit_eur }) && effect_list(effects@)
                == step_reported(
                over_budget_report(*self, took, spent_eur, limit_eur),
                None,
                "failed"@,
                cost,
                old(events).next,
            ),
            final(events).next == number_after(old(events).next),
    {
        let report = self.report(
            took,
            Some(spent_eur),
            SpanStatus::Error,
            Some(SpanError::Budget { spent_eur, limit_eur }),
            NodeMeta::default(),
        );
        let number: u64 = events.next_seq();
        let effects = step_effects(&report, &None, "failed", cost, number);
        AfterSuccess::Failed {
            error: TakelnError::BudgetExceeded { spent_eur, limit_eur },
            effects,
        }
    }
}

/// Whether `after` is what follows the checkpoint of a step, with `n` as the
/// number of the next event.
pub open spec fn is_saved<S, N, D, C>(
    graph: GraphView<N, D, C>,
    step: CompletedStep<S>,
    checkpoint_id: String,
    n: u64,
    after: AfterSave<S>,
) -> bool {
    let known = step_reported(
        step.report@,
        Some(checkpoint_id@),
        "success"@,
        step.report.cost_eur,
        n,
    );
    if graph.interrupt_after.contains(step.run.node@) {
        after matches AfterSave::Paused { state, effects } && state == step.run.state
            && effect_list(effects@) == known
    } else {
        after matches AfterSave::Continue { run, effects } && run == (SequentialRun {
            node: step.next_node,
            last_checkpoint_id: Some(checkpoint_id),
            ..step.run
        }) && effect_list(effects@) == known
    }
}

impl<S> CompletedStep<S> {
    /// Takes back that the checkpoint of the step was saved.
    pub fn saved<N, D, C>(
        self,
        checkpoint_id: String,
        graph: &Graph<N, D, C>,
        events: &mut EventSequence,
    ) -> (after: AfterSave<S>)
        ensures
            is_saved(graph@, self, checkpoint_id, old(events).next, after),
            final(events).next == number_after(old(events).next),
    {
        let number: u64 = events.next_seq();
        let saved = Some(checkpoint_id);
        let effects = step_effects(&self.report, &saved, "success", self.report.cost_eur, number);
        if graph.interrupts_after(self.run.node.as_str()) {
            AfterSave::Paused { state: self.run.state, effects }
        } else {
            AfterSave::Continue {
                run: SequentialRun {
                    node: self.next_node,
                    last_checkpoint_id: saved,
                    ..self.run
                },
                effects,
            }
        }
    }

    /// Takes back that the checkpoint of the step could not be saved.
    pub fn not_saved(&self, events: &mut EventSequence) -> (effects: Vec<Effect>)
        ensures
            effect_list(effects@) == step_reported(
                self.report@,
                None,
                "success"@,
                self.report.cost_eur,
                old(events).next,
            ),
            final(events).next == number_after(old(events).next),
    {
        let number: u64 = events.next_seq();
        step_effects(&self.report, &None, "success", self.report.cost_eur, number)
    }
}

} // verus!
