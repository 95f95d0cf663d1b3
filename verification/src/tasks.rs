//! One node of a parallel wave: calling it, and calling it again.
use crate::clock::{duration_ms, elapsed_ms, TimeSpan, Timestamp};
use crate::context::NodeContext;
use crate::effects::{
    add_report, effect_list, finished_effect, no_effects, node_finished, node_started, one_effect,
    reported, started_effect, Effect, NodeReport, NodeReportView,
};
use crate::emitter::{span_error, span_error_of, SpanStatus};
use crate::error::{GraphError, GraphErrorView};
use crate::graph::{no_meta, number_after, EventSequence, NodeMeta};
use crate::identity::{hyphenated, is_random_id};
use crate::money::Eur;
use crate::retry::RetryPolicy;
use crate::sequential::tries_again;
use tokio_util::sync::CancellationToken;
use vstd::prelude::*;
use vstd::string::*;

verus! {

/// A node of a wave that is to be called.
#[derive(Debug)]
pub struct NodeTask {
    /// The index of the node in the DAG.
    pub index: usize,
    pub thread_id: String,
    /// The identifier of the DAG.
    pub dag_id: String,
    pub node_name: String,
    /// Whether the node is a dynamic one, which is neither retried nor timed.
    pub dynamic: bool,
    pub retry: RetryPolicy,
    pub timeout: Option<TimeSpan>,
}

/// A node of a wave that is being called.
#[derive(Debug)]
pub struct TaskCall {
    pub task: NodeTask,
    /// The attempt, counted from zero.
    pub attempt: u8,
    pub started_at: Timestamp,
}

/// When a task ran, and at which attempt it ended.
#[derive(Debug, Clone, Copy, PartialEq, Eq, Structural)]
pub struct TaskTiming {
    pub attempt: u8,
    pub started_at: Timestamp,
    pub duration_ms: u64,
}

/// What follows a call that did not succeed.
#[derive(Debug)]
pub enum AfterTaskFailure {
    /// The node is to be called again, after the delay of the call.
    Retry { call: TaskCall, effects: Vec<Effect> },
    /// The task ends with the error.
    Settled { error: GraphError, timing: TaskTiming, effects: Vec<Effect> },
}

/// What is known of a task that is to be tried again.
pub open spec fn retry_report(call: TaskCall, took: u64, error: GraphErrorView) -> NodeReportView {
    NodeReportView {
        thread_id: call.task.thread_id@,
        node_name: call.task.node_name@,
        dag_id: Some(call.task.dag_id@),
        attempt: call.attempt,
        started_at: call.started_at,
        duration_ms: took,
        cost_eur: None,
        status: SpanStatus::Retrying,
        error: Some(span_error(error)),
        meta: no_meta(),
    }
}

/// The word for how a task ended with an error.
pub open spec fn task_status(error: GraphErrorView) -> Seq<char> {
    if error is Yield {
        "yielded"@
    } else {
        "failed"@
    }
}

/// Whether `after` is what follows a call of a wave that did not succeed.
pub open spec fn is_task_failure(
    call: TaskCall,
    error: GraphErrorView,
    now: Timestamp,
    n: u64,
    after: AfterTaskFailure,
) -> bool {
    let thread = call.task.thread_id@;
    let name = call.task.node_name@;
    let took = duration_ms(call.started_at, now);
    if tries_again(call.task.dynamic, call.attempt, call.task.retry, error) {
        after matches AfterTaskFailure::Retry { call: again, effects } && again == (TaskCall {
            attempt: (call.attempt + 1) as u8,
            ..call
        }) && effect_list(effects@) == reported(retry_report(call, took, error), None)
    } else {
        after matches AfterTaskFailure::Settled { error: settled, timing, effects } && settled@
            == error && timing == (TaskTiming {
            attempt: call.attempt,
            started_at: call.started_at,
            duration_ms: took,
        }) && effect_list(effects@) == seq![
            node_finished(thread, name, took, task_status(error), None, n),
        ]
    }
}

impl NodeTask {
    /// Starts the task.
    pub fn start(self, now: Timestamp, events: &mut EventSequence) -> (started: (
        TaskCall,
        Vec<Effect>,
    ))
        ensures
            started.0 == (TaskCall { task: self, attempt: 0, started_at: now }),
            effect_list(started.1@) == seq![
                node_started(self.thread_id@, self.node_name@, now, old(events).next),
            ],
            final(events).next == number_after(old(events).next),
    {
        let number: u64 = events.next_seq();
        let effects = one_effect(
            started_effect(self.thread_id.as_str(), self.node_name.as_str(), now, number),
        );
        (TaskCall { task: self, attempt: 0, started_at: now }, effects)
    }
}

impl TaskCall {
    /// The context of this call. Nodes of a wave know neither a checkpoint nor
    /// a budget nor the input of a resume.
    pub fn context(&self, cancellation: Option<CancellationToken>) -> (context: NodeContext)
        ensures
            context.keyed(),
            context.thread_id == self.task.thread_id,
            context.node_name == self.task.node_name,
            context.attempt == self.attempt,
            exists|id: u128| is_random_id(id) && context.attempt_id@ == #[trigger] hyphenated(id),
            context.last_checkpoint_id is None,
            context.budget_remaining_eur is None,
            context.cancellation == cancellation,
            context.resumed_input is None,
    {
        NodeContext::new(
            self.task.thread_id.clone(),
            self.task.node_name.clone(),
            self.attempt,
            None,
            None,
            cancellation,
            None,
        )
    }

    /// How long to wait before this call: not at all before the first one, then
    /// as the retry policy says for the attempt before.
    pub fn delay(&self) -> (delay: TimeSpan)
        ensures
            delay.wf(),
            exists|draw: u64|
                delay.total_nanos() == #[trigger] self.task.retry.wait_ms(self.attempt, draw)
                    * 1_000_000,
            self.attempt == 0 ==> delay.total_nanos() == 0,
            self.attempt > 0 && !self.task.retry.jitter ==> delay.total_nanos()
                == self.task.retry.plain_delay((self.attempt - 1) as u8) * 1_000_000,
    {
        self.task.retry.wait_before(self.attempt)
    }

    /// Takes back that the call succeeded at a cost.
    pub fn succeed(&self, cost: Option<Eur>, now: Timestamp, events: &mut EventSequence) -> (ended: (
        TaskTiming,
        Vec<Effect>,
    ))
        ensures
            ended.0 == (TaskTiming {
                attempt: self.attempt,
                started_at: self.started_at,
                duration_ms: duration_ms(self.started_at, now),
            }),
            effect_list(ended.1@) == seq![
                node_finished(
                    self.task.thread_id@,
                    self.task.node_name@,
                    duration_ms(self.started_at, now),
                    "success"@,
                    cost,
                    old(events).next,
                ),
            ],
            final(events).next == number_after(old(events).next),
    {
        let number: u64 = events.next_seq();
        let took: u64 = elapsed_ms(self.started_at, now);
        let effects = one_effect(
            finished_effect(
                self.task.thread_id.as_str(),
                self.task.node_name.as_str(),
                took,
                "success",
                cost,
                number,
            ),
        );
        let timing = TaskTiming {
            attempt: self.attempt,
            started_at: self.started_at,
            duration_ms: took,
        };
        (timing, effects)
    }

    /// Takes back that the call did not succeed.
    pub fn fail(self, error: GraphError, now: Timestamp, events: &mut EventSequence) -> (after:
        AfterTaskFailure)
        ensures
            is_task_failure(self, error@, now, old(events).next, after),
            final(events).next == if after is Retry {
                old(events).next
            } else {
                number_after(old(events).next)
            },
    {
        let took: u64 = elapsed_ms(self.started_at, now);
        match &error {
            GraphError::Retryable(_) => {
                if !self.task.dynamic {
                    let attempt: u8 = self.attempt.saturating_add(1);
                    if attempt < self.task.retry.max_attempts {
                        let report = NodeReport {
                            thread_id: self.task.thread_id.clone(),
                            node_name: self.task.node_name.clone(),
                            dag_id: Some(self.task.dag_id.clone()),
                            attempt: self.attempt,
                            started_at: self.started_at,
                            duration_ms: took,
                            cost_eur: None,
                            status: SpanStatus::Retrying,
                            error: Some(span_error_of(&error)),
                            meta: NodeMeta::default(),
                        };
                        let mut effects = no_effects();
                        add_report(&mut effects, &report, &None);
                        assert(effect_list(effects@) =~= reported(report@, None));
                        return AfterTaskFailure::Retry {
                            call: TaskCall { attempt, ..self },
                            effects,
                        };
                    }
                }
            },
            _ => {},
        }
        let status = match &error {
            GraphError::Yield(_) => "yielded",
            _ => "failed",
        };
        let number: u64 = events.next_seq();
        let effects = one_effect(
            finished_effect(
                self.task.thread_id.as_str(),
                self.task.node_name.as_str(),
                took,
                status,
                None,
                number,
            ),
        );
        let timing = TaskTiming {
            attempt: self.attempt,
            started_at: self.started_at,
            duration_ms: took,
        };
        AfterTaskFailure::Settled { error, timing, effects }
    }
}

} // verus!
