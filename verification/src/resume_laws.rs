//! What holds of resumes: they are safe to repeat, to fail and to follow a
//! crash.
use crate::acyclic::law_restored_dag_is_the_snapshot;
use crate::checkpoint::{waits_for, ClaimResult, SaveRequest};
use crate::checkpoint_meta::{CheckpointMetaView, CheckpointStatus, CrashRecoveryPolicy};
use crate::clock::Timestamp;
use crate::dag::{status_of, DAGNodeView, NodeStatus};
use crate::error::TakelnError;
use crate::graph::{end_name, Graph, GraphView};
use crate::hitl::YieldRequest;
use crate::json::{law_equal_views_mean_alike, JsonValue};
use crate::readiness::{is_done, ready_wave};
use crate::resume::{
    input_refusal, is_input_run, plan_resume_with_input, recovered_nodes, resumed_nodes,
    rollback_save, InputPlan, ResumePoint, YieldedCheckpoint,
};
use crate::schedule::unique_ids;
use crate::sequential::{is_next, AfterSuccess, Next, SequentialRun};
use crate::sequential_laws::{is_round, law_completed_step_resolves, Round};
use crate::store::laws::law_rollback_reopens_the_interrupt;
use crate::store::memory::{claimed_log, latest_of, resolved_in, StoredView};
use crate::wave_laws::law_launch_respects_dependencies;
use vstd::prelude::*;

verus! {

/// An interrupt that was resolved before runs nothing: the answer is the
/// current state, whatever the input.
pub proof fn law_resolved_interrupt_runs_nothing<S, N, D, C: Fn(&S) -> String>(
    graph: &Graph<N, D, C>,
    thread_id: &str,
    interrupt_id: &str,
    input: JsonValue,
    loaded: YieldedCheckpoint<S>,
    plan: Result<InputPlan<S>, TakelnError>,
)
    requires
        call_ensures(
            plan_resume_with_input::<S, N, D, C>,
            (
                graph,
                thread_id,
                interrupt_id,
                input,
                ClaimResult::AlreadyCompleted,
                Some(loaded),
            ),
            plan,
        ),
    ensures
        plan == Ok::<InputPlan<S>, TakelnError>(InputPlan::Completed(loaded.state)),
{
}

/// A stored checkpoint that undoes a resume.
pub open spec fn is_rollback<S>(point: ResumePoint<S>, stored: StoredView<S>) -> bool {
    let save = rollback_save(point);
    &&& stored.state == point.backup
    &&& stored.next_node == save.next_node
    &&& stored.status == save.status
    &&& stored.yield_request == save.yield_request
    &&& stored.claimed_interrupt == save.claimed_interrupt
    &&& stored.resolved_interrupt == save.resolved_interrupt
}

/// Requests with the same contents refuse the same inputs, for the same reasons.
pub proof fn law_equal_requests_accept_alike(
    thread_id: Seq<char>,
    interrupt_id: Seq<char>,
    input: JsonValue,
    a: YieldRequest,
    b: YieldRequest,
)
    requires
        a@ == b@,
    ensures
        input_refusal(thread_id, interrupt_id, input, Some(a)) == input_refusal(
            thread_id,
            interrupt_id,
            input,
            Some(b),
        ),
{
    match (a.schema, b.schema) {
        (Some(x), Some(y)) => {
            law_equal_views_mean_alike(x, y);
        },
        _ => {},
    }
}

/// A resume that fails and is undone can be tried again: the interrupt waits as
/// before the claim, at the same node, with the state that was kept, and for the
/// same inputs.
pub proof fn law_failed_resume_can_be_retried<S, N, D, C: Fn(&S) -> String>(
    graph: GraphView<N, D, C>,
    thread_id: Seq<char>,
    interrupt_id: Seq<char>,
    input: JsonValue,
    loaded: YieldedCheckpoint<S>,
    run: SequentialRun<S>,
    point: ResumePoint<S>,
    log: Seq<StoredView<S>>,
    rollback: StoredView<S>,
    reloaded: YieldRequest,
    other: JsonValue,
)
    requires
        is_input_run::<S, N, D, C>(graph, thread_id, interrupt_id, input, loaded, run, point),
        loaded.meta.yield_request is Some,
        latest_of(log) matches Some(l) && waits_for(l, interrupt_id),
        !resolved_in(log, interrupt_id),
        log.last().yield_request == Some(loaded.meta.yield_request->0@),
        log.last().next_node == loaded.meta.next_node@,
        is_rollback(point, rollback),
        rollback.yield_request == Some(reloaded@),
    ensures
        !resolved_in(claimed_log(log, interrupt_id).push(rollback), interrupt_id),
        latest_of(claimed_log(log, interrupt_id).push(rollback)) matches Some(l) && waits_for(
            l,
            interrupt_id,
        ),
        rollback.next_node == log.last().next_node,
        rollback.state == loaded.backup,
        input_refusal(thread_id, interrupt_id, other, Some(reloaded)) == input_refusal(
            thread_id,
            interrupt_id,
            other,
            loaded.meta.yield_request,
        ),
{
    law_equal_requests_accept_alike(
        thread_id,
        interrupt_id,
        other,
        reloaded,
        loaded.meta.yield_request->0,
    );
    law_rollback_reopens_the_interrupt(log, interrupt_id, rollback);
}

/// After a crash was recovered from, no node is left running: those that ran
/// are pending again or, where they are skipped, done; all others are as they
/// were.
pub proof fn law_recovery_leaves_none_running(
    nodes: Seq<DAGNodeView>,
    policy: CrashRecoveryPolicy,
    i: int,
)
    requires
        policy != CrashRecoveryPolicy::FailFast,
        0 <= i < nodes.len(),
    ensures
        recovered_nodes(nodes, policy).len() == nodes.len(),
        recovered_nodes(nodes, policy)[i].status != NodeStatus::Running,
        nodes[i].status == NodeStatus::Running ==> recovered_nodes(nodes, policy)[i].status == (
        if policy == CrashRecoveryPolicy::ResetToPending {
            NodeStatus::Pending
        } else {
            NodeStatus::Done
        }),
        nodes[i].status != NodeStatus::Running ==> recovered_nodes(nodes, policy)[i] == nodes[i],
{
}

/// A node that was done when the checkpoint was taken is done in the resumed
/// run and does not run again; nothing but statuses changes.
pub proof fn law_done_nodes_stay_done(
    nodes: Seq<DAGNodeView>,
    saved: Seq<DAGNodeView>,
    meta: CheckpointMetaView,
    policy: CrashRecoveryPolicy,
    i: int,
)
    requires
        0 <= i < nodes.len(),
    ensures
        resumed_nodes(nodes, saved, meta, policy).len() == nodes.len(),
        resumed_nodes(nodes, saved, meta, policy)[i].id == nodes[i].id,
        resumed_nodes(nodes, saved, meta, policy)[i].step_type == nodes[i].step_type,
        resumed_nodes(nodes, saved, meta, policy)[i].depends_on == nodes[i].depends_on,
        status_of(saved, nodes[i].id) == Some(NodeStatus::Done) ==> resumed_nodes(
            nodes,
            saved,
            meta,
            policy,
        )[i].status == NodeStatus::Done && !ready_wave(
            resumed_nodes(nodes, saved, meta, policy),
        ).contains(i),
{
    let resumed = resumed_nodes(nodes, saved, meta, policy);
    law_launch_respects_dependencies(resumed, i);
}

/// A node that had yielded when the checkpoint was taken is pending in the
/// resumed run, and runs again as soon as what it depends on is done.
pub proof fn law_yielded_nodes_run_again(
    nodes: Seq<DAGNodeView>,
    saved: Seq<DAGNodeView>,
    meta: CheckpointMetaView,
    policy: CrashRecoveryPolicy,
    i: int,
)
    requires
        0 <= i < nodes.len(),
        status_of(saved, nodes[i].id) == Some(NodeStatus::Yielded),
    ensures
        resumed_nodes(nodes, saved, meta, policy)[i].status == NodeStatus::Pending,
        ready_wave(resumed_nodes(nodes, saved, meta, policy)).contains(i) <==> forall|k: int|
            0 <= k < nodes[i].depends_on.len() ==> is_done(
                resumed_nodes(nodes, saved, meta, policy),
                #[trigger] nodes[i].depends_on[k],
            ),
{
    let resumed = resumed_nodes(nodes, saved, meta, policy);
    law_launch_respects_dependencies(resumed, i);
    assert(resumed[i].depends_on == nodes[i].depends_on);
}

/// A DAG run that is resumed from the checkpoint of a wave, after which no node
/// was left running or yielded, has the nodes with which the run went on.
pub proof fn law_dag_resume_continues(
    run: Seq<DAGNodeView>,
    nodes: Seq<DAGNodeView>,
    meta: CheckpointMetaView,
    policy: CrashRecoveryPolicy,
)
    requires
        unique_ids(run),
        run.len() == nodes.len(),
        forall|i: int|
            0 <= i < nodes.len() ==> (#[trigger] nodes[i]).id == run[i].id && nodes[i].step_type
                == run[i].step_type && nodes[i].depends_on == run[i].depends_on,
        forall|i: int|
            0 <= i < run.len() ==> (#[trigger] run[i]).status != NodeStatus::Running
                && run[i].status != NodeStatus::Yielded,
    ensures
        resumed_nodes(nodes, run, meta, policy) == run,
{
    law_restored_dag_is_the_snapshot(nodes, run);
    assert(resumed_nodes(nodes, run, meta, policy) =~= run);
}

/// A handoff that leads to the end resolves the interrupt: the run closes with a
/// checkpoint that says so, under which every later claim finds it completed,
/// with the state of the run.
pub proof fn law_handoff_to_the_end_is_final<S, N, D, C: Fn(&S) -> String>(
    graph: GraphView<N, D, C>,
    thread_id: Seq<char>,
    interrupt_id: Seq<char>,
    input: JsonValue,
    loaded: YieldedCheckpoint<S>,
    run: SequentialRun<S>,
    point: ResumePoint<S>,
    now: Timestamp,
    n: u64,
    next: Next<S>,
    log: Seq<StoredView<S>>,
    stored: StoredView<S>,
    later: Seq<StoredView<S>>,
)
    requires
        is_input_run::<S, N, D, C>(graph, thread_id, interrupt_id, input, loaded, run, point),
        run.node@ == end_name(),
        is_next(graph, run, now, n, next),
        graph.resource_limits.max_sequential_steps > 0,
        graph.fits(run.state_bytes),
        next matches Next::Closing { save, .. } ==> stored.resolved_interrupt
            == save@.resolved_interrupt,
    ensures
        next is Closing,
        next->Closing_run.state == loaded.state,
        next->Closing_save@.status == CheckpointStatus::Complete,
        next->Closing_save@.next_node == end_name(),
        resolved_in(log.push(stored) + later, interrupt_id),
{
    let all = log.push(stored) + later;
    assert(all[log.len() as int] == stored);
}

/// Once a resumed run completed a step and its checkpoint is stored, the
/// interrupt is resolved for good: every later claim finds it completed.
pub proof fn law_completed_resume_is_final<S, N, D, C: Fn(&S) -> String>(
    graph: GraphView<N, D, C>,
    thread_id: Seq<char>,
    interrupt_id: Seq<char>,
    input: JsonValue,
    loaded: YieldedCheckpoint<S>,
    run: SequentialRun<S>,
    point: ResumePoint<S>,
    round: Round<S>,
    to: SequentialRun<S>,
    save: SaveRequest,
    log: Seq<StoredView<S>>,
    stored: StoredView<S>,
    later: Seq<StoredView<S>>,
)
    requires
        is_input_run::<S, N, D, C>(graph, thread_id, interrupt_id, input, loaded, run, point),
        is_round(graph, run, round, to),
        round.after matches AfterSuccess::Completed { save: s, .. } && s == save,
        stored.resolved_interrupt == save@.resolved_interrupt,
    ensures
        resolved_in(log.push(stored) + later, interrupt_id),
{
    law_completed_step_resolves(graph, run, round, to, save);
    let all = log.push(stored) + later;
    assert(all[log.len() as int] == stored);
}

} // verus!
