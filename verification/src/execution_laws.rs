//! What holds of execution identifiers: a node that is called again for the same
//! logical execution is called under the same identifier.
use crate::checkpoint::{ClaimResult, SaveRequest};
use crate::checkpoint_meta::{
    CheckpointMeta, CheckpointMetaView, CheckpointStatus, CrashRecoveryPolicy,
};
use crate::clock::Timestamp;
use crate::context::execution_key;
use crate::error::{GraphErrorView, TakelnError};
use crate::graph::{Graph, GraphView};
use crate::hitl::ResumeMode;
use crate::json::JsonValue;
use crate::resume::{
    crashed, is_fresh, is_input_run, meta_list, open_at, plan_resume, plan_resume_with_input,
    plan_run, resumes_at, seen_by, InputPlan, ResumePoint, YieldedCheckpoint,
};
use crate::sequential::{
    is_failure, is_next, AfterFailure, AfterSuccess, Next, NodeCall, SequentialRun,
};
use crate::sequential_laws::{decided, is_retry, is_round, is_trace, law_retry, same_call, Round};
use crate::text::text_option;
use vstd::prelude::*;

verus! {

/// The identifier that the nodes of a run are given for their side effects.
pub open spec fn run_key<S>(run: SequentialRun<S>) -> Seq<char> {
    execution_key(run.thread_id@, run.node@, text_option(run.last_checkpoint_id))
}

/// Whether a run sees the checkpoint that the log of its thread says its node
/// saw first.
pub open spec fn sees<S>(run: SequentialRun<S>, log: Seq<CheckpointMetaView>) -> bool {
    text_option(run.last_checkpoint_id) == seen_by(log, run.node@)
}

/// Whether a run has not begun and sees what the log of its thread says.
pub open spec fn is_planned<S>(run: SequentialRun<S>, log: Seq<CheckpointMetaView>) -> bool {
    is_fresh(run, run.thread_id@, run.state, run.state_bytes, seen_by(log, run.node@))
}

/// A run that is started by the name of a node is planned over its history.
pub proof fn law_started_run_is_planned<S>(
    thread_id: &str,
    state: S,
    state_bytes: usize,
    start_node: &str,
    history: &Vec<CheckpointMeta>,
    run: SequentialRun<S>,
)
    requires
        call_ensures(plan_run::<S>, (thread_id, state, state_bytes, start_node, history), run),
    ensures
        is_planned(run, meta_list(history@)),
        sees(run, meta_list(history@)),
{
}

/// A run that is resumed is planned over its history, also where the node that
/// crashed is skipped.
pub proof fn law_resumed_run_is_planned<S, N, D, C: Fn(&S) -> String>(
    graph: &Graph<N, D, C>,
    thread_id: &str,
    loaded: Option<(S, CheckpointMeta)>,
    history: &Vec<CheckpointMeta>,
    state_bytes: usize,
    plan: Result<Option<SequentialRun<S>>, TakelnError>,
    run: SequentialRun<S>,
)
    requires
        call_ensures(
            plan_resume::<S, N, D, C>,
            (graph, thread_id, loaded, history, state_bytes),
            plan,
        ),
        plan == Ok::<Option<SequentialRun<S>>, TakelnError>(Some(run)),
    ensures
        is_planned(run, meta_list(history@)),
        sees(run, meta_list(history@)),
{
}

/// A run that is resumed with input is planned over its history, also where the
/// node that yielded is handed off.
pub proof fn law_input_run_is_planned<S, N, D, C: Fn(&S) -> String>(
    graph: &Graph<N, D, C>,
    thread_id: &str,
    interrupt_id: &str,
    input: JsonValue,
    claim: ClaimResult,
    loaded: YieldedCheckpoint<S>,
    plan: Result<InputPlan<S>, TakelnError>,
    run: SequentialRun<S>,
    point: ResumePoint<S>,
)
    requires
        call_ensures(
            plan_resume_with_input::<S, N, D, C>,
            (graph, thread_id, interrupt_id, input, claim, Some(loaded)),
            plan,
        ),
        plan == Ok::<InputPlan<S>, TakelnError>(InputPlan::Run { run, point }),
    ensures
        is_planned(run, meta_list(loaded.history@)),
        sees(run, meta_list(loaded.history@)),
{
}

/// Checkpoints taken at a node that has not completed, however many, do not
/// change what the node saw first.
pub proof fn law_open_checkpoints_are_not_seen(
    log: Seq<CheckpointMetaView>,
    open: Seq<CheckpointMetaView>,
    node: Seq<char>,
)
    requires
        forall|i: int| 0 <= i < open.len() ==> open_at(#[trigger] open[i], node),
    ensures
        seen_by(log + open, node) == seen_by(log, node),
    decreases open.len(),
{
    if open.len() == 0 {
        assert(log + open =~= log);
    } else {
        let fewer = open.drop_last();
        assert forall|i: int| 0 <= i < fewer.len() implies open_at(#[trigger] fewer[i], node) by {
            assert(fewer[i] == open[i]);
        }
        law_open_checkpoints_are_not_seen(log, fewer, node);
        let all = log + open;
        assert(all.last() == open[open.len() - 1]);
        assert(all.drop_last() =~= log + fewer);
    }
}

/// Deleting old checkpoints does not change what a node saw first, as long as
/// one is kept that was not taken at the node before it completed.
pub proof fn law_pruning_keeps_what_is_seen(
    deleted: Seq<CheckpointMetaView>,
    kept: Seq<CheckpointMetaView>,
    node: Seq<char>,
)
    requires
        exists|i: int| 0 <= i < kept.len() && !open_at(#[trigger] kept[i], node),
    ensures
        seen_by(deleted + kept, node) == seen_by(kept, node),
    decreases kept.len(),
{
    let all = deleted + kept;
    assert(all.last() == kept[kept.len() - 1]);
    if open_at(kept.last(), node) {
        let i = choose|i: int| 0 <= i < kept.len() && !open_at(#[trigger] kept[i], node);
        let fewer = kept.drop_last();
        assert(fewer[i] == kept[i]);
        assert(all.drop_last() =~= deleted + fewer);
        law_pruning_keeps_what_is_seen(deleted, fewer, node);
    }
}

/// Whether the metadata are those of the checkpoint that a round saved.
pub open spec fn is_recorded<S>(round: Round<S>, meta: CheckpointMetaView) -> bool {
    round.after matches AfterSuccess::Completed { save, .. } && meta.checkpoint_id
        == round.checkpoint_id@ && meta.next_node == save@.next_node && meta.status
        == save@.status
}

/// A run that goes on after a step sees the checkpoint of that step, as the log
/// with that checkpoint says.
pub proof fn law_step_is_seen<S, N, D, C: Fn(&S) -> String>(
    graph: GraphView<N, D, C>,
    from: SequentialRun<S>,
    round: Round<S>,
    to: SequentialRun<S>,
    log: Seq<CheckpointMetaView>,
    meta: CheckpointMetaView,
)
    requires
        is_round(graph, from, round, to),
        is_recorded(round, meta),
    ensures
        sees(to, log.push(meta)),
{
    assert(log.push(meta).last() == meta);
}

/// The execution of a run as far as a call of a node: what the thread had saved
/// when the run was planned, the rounds of the run with the checkpoints they
/// saved, and the call, at whatever attempt.
pub struct Execution<S> {
    pub log: Seq<CheckpointMetaView>,
    pub runs: Seq<SequentialRun<S>>,
    pub rounds: Seq<Round<S>>,
    pub metas: Seq<CheckpointMetaView>,
    pub now: Timestamp,
    pub number: u64,
    pub next: Next<S>,
    pub call: NodeCall<S>,
}

impl<S> Execution<S> {
    /// What the thread has saved when the node is called.
    pub open spec fn history(self) -> Seq<CheckpointMetaView> {
        self.log + self.metas
    }

    /// The name of the node.
    pub open spec fn node(self) -> Seq<char> {
        self.call.run.node@
    }
}

/// Whether a planned run comes to the call.
pub open spec fn is_execution<S, N, D, C: Fn(&S) -> String>(
    graph: GraphView<N, D, C>,
    execution: Execution<S>,
) -> bool {
    &&& is_trace(graph, execution.runs, execution.rounds)
    &&& is_planned(execution.runs[0], execution.log)
    &&& execution.metas.len() == execution.rounds.len()
    &&& forall|i: int|
        0 <= i < execution.rounds.len() ==> is_recorded(
            #[trigger] execution.rounds[i],
            execution.metas[i],
        )
    &&& is_next(
        graph,
        execution.runs.last(),
        execution.now,
        execution.number,
        execution.next,
    )
    &&& execution.next matches Next::Call { call: first, .. } && same_call(first, execution.call)
}

/// Every node that is called sees the checkpoint that the log of its thread says
/// it saw first, wherever in its run it is called.
pub proof fn law_calls_see_their_log<S, N, D, C: Fn(&S) -> String>(
    graph: GraphView<N, D, C>,
    execution: Execution<S>,
)
    requires
        is_execution(graph, execution),
    ensures
        sees(execution.call.run, execution.history()),
        execution.call.run.node == execution.runs.last().node,
        execution.call.run.thread_id == execution.runs.last().thread_id,
{
    let n = execution.rounds.len();
    let log = execution.log;
    let metas = execution.metas;
    if n == 0 {
        assert(log + metas =~= log);
        assert(execution.runs.last() == execution.runs[0]);
    } else {
        let last = n - 1;
        let round = execution.rounds[last];
        assert(is_round(graph, execution.runs[last], round, execution.runs[last + 1]));
        assert(is_recorded(round, metas[last]));
        law_step_is_seen(
            graph,
            execution.runs[last],
            round,
            execution.runs[last + 1],
            log + metas.drop_last(),
            metas[last],
        );
        assert((log + metas.drop_last()).push(metas[last]) =~= log + metas);
        assert(execution.runs.last() == execution.runs[last + 1]);
    }
}

/// A node that is called again keeps its execution identifier: by whatever plan
/// the next run starts with the node, as long as since the call nothing was
/// saved but checkpoints at the node itself, by yields, claims and rollbacks.
pub proof fn law_called_again_keeps_the_execution_id<S, N, D, C: Fn(&S) -> String>(
    graph: GraphView<N, D, C>,
    execution: Execution<S>,
    open: Seq<CheckpointMetaView>,
    again: SequentialRun<S>,
)
    requires
        is_execution(graph, execution),
        forall|i: int| 0 <= i < open.len() ==> open_at(#[trigger] open[i], execution.node()),
        is_planned(again, execution.history() + open),
        again.thread_id@ == execution.call.run.thread_id@,
        again.node@ == execution.node(),
    ensures
        run_key(again) == run_key(execution.call.run),
{
    law_calls_see_their_log(graph, execution);
    law_open_checkpoints_are_not_seen(execution.history(), open, execution.node());
}

/// A node that yielded is executed again under the same execution identifier
/// when it is re-entered with input, wherever in its run it yielded, however that
/// run was started, and however often the node is claimed, rolled back and yields
/// again in between.
pub proof fn law_reentry_keeps_the_execution_id<S, N, D, C: Fn(&S) -> String>(
    graph: GraphView<N, D, C>,
    execution: Execution<S>,
    error: GraphErrorView,
    now: Timestamp,
    n: u64,
    after: AfterFailure<S>,
    save: SaveRequest,
    open: Seq<CheckpointMetaView>,
    interrupt_id: Seq<char>,
    input: JsonValue,
    loaded: YieldedCheckpoint<S>,
    run: SequentialRun<S>,
    point: ResumePoint<S>,
)
    requires
        is_execution(graph, execution),
        is_failure(graph, execution.call, error, now, n, after),
        after matches AfterFailure::Yielded { save: s, .. } && s == save,
        forall|i: int| 0 <= i < open.len() ==> open_at(#[trigger] open[i], save@.next_node),
        meta_list(loaded.history@) == execution.history() + open,
        loaded.meta.next_node@ == save@.next_node,
        is_input_run::<S, N, D, C>(
            graph,
            execution.call.run.thread_id@,
            interrupt_id,
            input,
            loaded,
            run,
            point,
        ),
        loaded.meta.yield_request matches Some(r) && r.resume_mode == ResumeMode::ReEntry,
    ensures
        run_key(run) == run_key(execution.call.run),
{
    law_called_again_keeps_the_execution_id(graph, execution, open, run);
}

/// A node that failed, yielded or crashed is executed again under the same
/// execution identifier when the thread is resumed at it.
pub proof fn law_recovery_keeps_the_execution_id<S, N, D, C: Fn(&S) -> String>(
    graph: GraphView<N, D, C>,
    execution: Execution<S>,
    open: Seq<CheckpointMetaView>,
    meta: CheckpointMetaView,
    resumed: SequentialRun<S>,
)
    requires
        is_execution(graph, execution),
        forall|i: int| 0 <= i < open.len() ==> open_at(#[trigger] open[i], execution.node()),
        (execution.history() + open).len() > 0,
        meta == (execution.history() + open).last(),
        meta.next_node == execution.node(),
        !crashed(meta) || graph.crash_recovery_policy == CrashRecoveryPolicy::ResetToPending,
        is_planned(resumed, execution.history() + open),
        resumed.thread_id@ == execution.call.run.thread_id@,
        resumes_at::<S, N, D, C>(graph, resumed.state, meta, resumed.node@),
    ensures
        run_key(resumed) == run_key(execution.call.run),
{
    law_called_again_keeps_the_execution_id(graph, execution, open, resumed);
}

/// A resume with input that failed and is tried again starts under the same
/// execution identifier, whether it re-enters the node or hands off to the next
/// one.
pub proof fn law_retried_resume_keeps_the_execution_id<S, N, D, C: Fn(&S) -> String>(
    graph: GraphView<N, D, C>,
    thread_id: Seq<char>,
    interrupt_id: Seq<char>,
    log: Seq<CheckpointMetaView>,
    open: Seq<CheckpointMetaView>,
    input: JsonValue,
    loaded: YieldedCheckpoint<S>,
    run: SequentialRun<S>,
    point: ResumePoint<S>,
    later: Seq<CheckpointMetaView>,
    later_input: JsonValue,
    reloaded: YieldedCheckpoint<S>,
    again: SequentialRun<S>,
    later_point: ResumePoint<S>,
)
    requires
        decided::<S, N, D, C>(graph),
        open.len() > 0,
        later.len() > 0,
        forall|i: int|
            0 <= i < open.len() ==> open_at(#[trigger] open[i], loaded.meta.next_node@),
        forall|i: int|
            0 <= i < later.len() ==> open_at(#[trigger] later[i], loaded.meta.next_node@),
        meta_list(loaded.history@) == log + open,
        meta_list(reloaded.history@) == log + later,
        reloaded.meta.next_node@ == loaded.meta.next_node@,
        reloaded.state == loaded.state,
        loaded.meta.yield_request is Some,
        reloaded.meta.yield_request is Some,
        reloaded.meta.yield_request->0.resume_mode == loaded.meta.yield_request->0.resume_mode,
        is_input_run::<S, N, D, C>(graph, thread_id, interrupt_id, input, loaded, run, point),
        is_input_run::<S, N, D, C>(
            graph,
            thread_id,
            interrupt_id,
            later_input,
            reloaded,
            again,
            later_point,
        ),
    ensures
        again.node@ == run.node@,
        run_key(again) == run_key(run),
{
    let node = loaded.meta.next_node@;
    law_open_checkpoints_are_not_seen(log, open, node);
    law_open_checkpoints_are_not_seen(log, later, node);
    assert((log + open).last() == open[open.len() - 1]);
    assert((log + later).last() == later[later.len() - 1]);
}

/// A retry is executed under the execution identifier of the attempt before.
pub proof fn law_retries_keep_the_execution_id<S, N, D, C>(
    graph: GraphView<N, D, C>,
    call: NodeCall<S>,
    error: GraphErrorView,
    now: Timestamp,
    n: u64,
    again: NodeCall<S>,
)
    requires
        is_retry(graph, call, error, now, n, again),
    ensures
        run_key(again.run) == run_key(call.run),
{
    law_retry(graph, call, error, now, n, again);
}

/// A node that the last checkpoint of its thread does not lead to saw none.
pub proof fn law_other_checkpoints_are_not_seen(log: Seq<CheckpointMetaView>, node: Seq<char>)
    ensures
        log.len() == 0 ==> seen_by(log, node) is None,
        log.len() > 0 && log.last().next_node != node ==> seen_by(log, node) is None,
        log.len() > 0 && log.last().next_node == node && log.last().status
            != CheckpointStatus::Yielded && log.last().status != CheckpointStatus::Running
            ==> seen_by(log, node) == Some(log.last().checkpoint_id),
        log.len() > 0 && log.last().next_node == node && (log.last().status
            == CheckpointStatus::Yielded || log.last().status == CheckpointStatus::Running)
            ==> seen_by(log, node) == seen_by(log.drop_last(), node),
{
}

} // verus!
