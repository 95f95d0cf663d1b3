//! What plans over saved checkpoints owe, in terms of what was loaded.
use crate::checkpoint::{decide_claim, ClaimResult, LatestCheckpoint, SaveRequest};
use crate::checkpoint_meta::{CheckpointMeta, CheckpointStatus, CrashRecoveryPolicy};
use crate::dag::{status_of, DAGNodeView, NodeStatus, DAG};
use crate::error::{TakelnError, TakelnErrorView};
use crate::graph::{EdgeView, Graph};
use crate::hitl::ResumeMode;
use crate::json::JsonValue;
use crate::resume::{
    plan_resume, plan_resume_dag, plan_resume_with_input, DagResume, InputPlan, ResumePoint,
    YieldedCheckpoint,
};
use crate::schema::validate_input_against_schema;
use crate::sequential::SequentialRun;
use vstd::prelude::*;

verus! {

/// A thread whose last checkpoint was not taken mid-execution is resumed at
/// exactly the node that the checkpoint names, with the state that was saved and
/// whatever the crash recovery policy says; the policy counts only for a
/// checkpoint that is running.
pub proof fn law_policies_count_for_crashes_alone<S, N, D, C: Fn(&S) -> String>(
    graph: &Graph<N, D, C>,
    thread_id: &str,
    state: S,
    meta: CheckpointMeta,
    history: &Vec<CheckpointMeta>,
    state_bytes: usize,
    plan: Result<Option<SequentialRun<S>>, TakelnError>,
)
    requires
        call_ensures(
            plan_resume::<S, N, D, C>,
            (graph, thread_id, Some((state, meta)), history, state_bytes),
            plan,
        ),
    ensures
        meta.status != CheckpointStatus::Running ==> plan is Ok && plan->Ok_0 is Some
            && plan->Ok_0->0.node@ == meta.next_node@,
        meta.status == CheckpointStatus::Running && graph@.crash_recovery_policy
            == CrashRecoveryPolicy::ResetToPending ==> plan is Ok && plan->Ok_0 is Some
            && plan->Ok_0->0.node@ == meta.next_node@,
        meta.status == CheckpointStatus::Running && graph@.crash_recovery_policy
            == CrashRecoveryPolicy::FailFast ==> plan is Err && plan->Err_0@
            == TakelnErrorView::ExecutionError(
            "Checkpoint for thread '"@ + thread_id@
                + "' has Running status (crash detected). FailFast policy applied."@,
        ),
        meta.status == CheckpointStatus::Running && graph@.crash_recovery_policy
            == CrashRecoveryPolicy::SkipAndContinue ==> {
            &&& plan is Ok && plan->Ok_0 is Some
            &&& !graph@.edges.contains_key(meta.next_node@) ==> plan->Ok_0->0.node@ == "__END__"@
            &&& graph@.edges.contains_key(meta.next_node@) ==> match graph@.edges[meta.next_node@] {
                EdgeView::Unconditional(target) => plan->Ok_0->0.node@ == target,
                EdgeView::Conditional(condition) => exists|answer: String| #[trigger]
                    condition.ensures((&state,), answer) && answer@ == plan->Ok_0->0.node@,
            }
        },
        plan matches Ok(Some(run)) ==> {
            &&& run.state == state
            &&& run.state_bytes == state_bytes
            &&& run.thread_id@ == thread_id@
            &&& run.steps == 0
            &&& !run.entered
            &&& run.spent.bits == 0
            &&& run.pending_input is None
            &&& run.resolved_interrupt == meta.claimed_interrupt
        },
        !(plan matches Ok(None)),
{
}

/// A thread without a checkpoint has nothing to resume.
pub proof fn law_nothing_saved_is_nothing_resumed<S, N, D, C: Fn(&S) -> String>(
    graph: &Graph<N, D, C>,
    thread_id: &str,
    history: &Vec<CheckpointMeta>,
    state_bytes: usize,
    plan: Result<Option<SequentialRun<S>>, TakelnError>,
    dag: DAG,
    depth: u8,
    dag_plan: DagResume<S>,
)
    requires
        call_ensures(
            plan_resume::<S, N, D, C>,
            (graph, thread_id, None, history, state_bytes),
            plan,
        ),
        call_ensures(
            plan_resume_dag::<S, N, D, C>,
            (graph, thread_id, dag, None, state_bytes, depth),
            dag_plan,
        ),
    ensures
        plan == Ok::<Option<SequentialRun<S>>, TakelnError>(None),
        dag_plan == DagResume::<S>::Nothing(dag),
{
}

/// The status that counts for an identifier is that of the last node that has it.
pub(crate) proof fn lemma_status_of_last(nodes: Seq<DAGNodeView>, id: u128, j: int)
    requires
        -1 <= j < nodes.len(),
        j >= 0 ==> nodes[j].id == id,
        forall|m: int| j < m < nodes.len() && 0 <= m ==> (#[trigger] nodes[m]).id != id,
    ensures
        j >= 0 ==> status_of(nodes, id) == Some(nodes[j].status),
        j < 0 ==> status_of(nodes, id) is None,
    decreases nodes.len(),
{
    if nodes.len() > 0 {
        let rest = nodes.drop_last();
        assert(nodes.last() == nodes[nodes.len() - 1]);
        if j < nodes.len() - 1 {
            assert forall|m: int| j < m < rest.len() && 0 <= m implies (#[trigger] rest[m]).id
                != id by {
                assert(rest[m] == nodes[m]);
            }
            lemma_status_of_last(rest, id, j);
        }
    }
}

/// With which statuses a DAG run is resumed: a node takes the status that the
/// snapshot holds for it, or keeps its own where the snapshot has none; one that
/// yielded is pending again; one that ran is pending again or done after a crash,
/// as the policy says, and stays as it is without one. `j` is the last node of
/// the snapshot with the identifier of node `i`, or negative where there is none.
pub proof fn law_dag_statuses_are_resumed<S, N, D, C>(
    graph: &Graph<N, D, C>,
    thread_id: &str,
    dag: DAG,
    state: S,
    meta: CheckpointMeta,
    saved: DAG,
    state_bytes: usize,
    depth: u8,
    plan: DagResume<S>,
    i: int,
    j: int,
)
    requires
        call_ensures(
            plan_resume_dag::<S, N, D, C>,
            (graph, thread_id, dag, Some((state, meta, Some(saved))), state_bytes, depth),
            plan,
        ),
        plan is Run,
        0 <= i < dag@.nodes.len(),
        -1 <= j < saved@.nodes.len(),
        j >= 0 ==> saved@.nodes[j].id == dag@.nodes[i].id,
        forall|m: int|
            j < m < saved@.nodes.len() && 0 <= m ==> (#[trigger] saved@.nodes[m]).id
                != dag@.nodes[i].id,
    ensures
        ({
            let was = if j >= 0 {
                saved@.nodes[j].status
            } else {
                dag@.nodes[i].status
            };
            let node = plan->Run_0.dag@.nodes[i];
            &&& plan->Run_0.dag@.nodes.len() == dag@.nodes.len()
            &&& plan->Run_0.dag@.id == dag@.id
            &&& node.id == dag@.nodes[i].id
            &&& node.step_type == dag@.nodes[i].step_type
            &&& node.depends_on == dag@.nodes[i].depends_on
            &&& was == NodeStatus::Pending ==> node.status == NodeStatus::Pending
            &&& was == NodeStatus::Done ==> node.status == NodeStatus::Done
            &&& was == NodeStatus::Failed ==> node.status == NodeStatus::Failed
            &&& was == NodeStatus::Yielded ==> node.status == NodeStatus::Pending
            &&& was == NodeStatus::Running && meta.status != CheckpointStatus::Running
                ==> node.status == NodeStatus::Running
            &&& was == NodeStatus::Running && meta.status == CheckpointStatus::Running
                && graph@.crash_recovery_policy == CrashRecoveryPolicy::ResetToPending
                ==> node.status == NodeStatus::Pending
            &&& was == NodeStatus::Running && meta.status == CheckpointStatus::Running
                && graph@.crash_recovery_policy == CrashRecoveryPolicy::SkipAndContinue
                ==> node.status == NodeStatus::Done
        }),
{
    lemma_status_of_last(saved@.nodes, dag@.nodes[i].id, j);
}

/// A DAG run is resumed with the state that was saved, unless the DAG may not be
/// run at all; only after a crash can the policy refuse it.
pub proof fn law_dag_resumes_are_owed<S, N, D, C>(
    graph: &Graph<N, D, C>,
    thread_id: &str,
    dag: DAG,
    state: S,
    meta: CheckpointMeta,
    saved: DAG,
    state_bytes: usize,
    depth: u8,
    plan: DagResume<S>,
)
    requires
        call_ensures(
            plan_resume_dag::<S, N, D, C>,
            (graph, thread_id, dag, Some((state, meta, Some(saved))), state_bytes, depth),
            plan,
        ),
    ensures
        plan is Run <==> depth <= 8 && dag@.nodes.len() <= graph@.resource_limits.max_dag_nodes
            && !(meta.status == CheckpointStatus::Running && graph@.crash_recovery_policy
            == CrashRecoveryPolicy::FailFast),
        plan is Run || plan is Failed,
        meta.status == CheckpointStatus::Running && graph@.crash_recovery_policy
            == CrashRecoveryPolicy::FailFast ==> plan->Failed_0.error@
            == TakelnErrorView::ExecutionError(
            "DAG checkpoint for thread '"@ + thread_id@
                + "' has Running status (crash detected). FailFast policy applied."@,
        ),
        plan matches DagResume::Run(run) ==> run.state == state && run.thread_id@ == thread_id@
            && run.state_bytes == state_bytes && !run.entered && run.spent.bits == 0,
{
}

/// How a claim decides whether a resume with input runs: a resolved interrupt
/// gives the state that was loaded, one in progress is refused, and a claimed one
/// runs exactly where the request is for this interrupt and its schema, if it has
/// one, accepts the input.
pub proof fn law_input_runs_are_owed<S, N, D, C: Fn(&S) -> String>(
    graph: &Graph<N, D, C>,
    thread_id: &str,
    interrupt_id: &str,
    input: JsonValue,
    claim: ClaimResult,
    loaded: YieldedCheckpoint<S>,
    plan: Result<InputPlan<S>, TakelnError>,
    schema: JsonValue,
    checked: Result<(), TakelnError>,
)
    requires
        call_ensures(
            plan_resume_with_input::<S, N, D, C>,
            (graph, thread_id, interrupt_id, input, claim, Some(loaded)),
            plan,
        ),
        call_ensures(validate_input_against_schema, (interrupt_id, &input, &schema), checked),
    ensures
        claim == ClaimResult::AlreadyCompleted ==> plan == Ok::<InputPlan<S>, TakelnError>(
            InputPlan::Completed(loaded.state),
        ),
        claim == ClaimResult::InProgress ==> plan is Err,
        claim == ClaimResult::Claimed && loaded.meta.yield_request is None ==> plan is Err
            && plan->Err_0@ is NothingToResume,
        claim == ClaimResult::Claimed && loaded.meta.yield_request is Some ==> {
            let request = loaded.meta.yield_request->0;
            &&& request.interrupt_id@ != interrupt_id@ ==> plan is Err
                && plan->Err_0@ is InvalidResume
            &&& request.interrupt_id@ == interrupt_id@ && request.schema is None ==> plan is Ok
                && plan->Ok_0 is Run
            &&& request.interrupt_id@ == interrupt_id@ && request.schema == Some(schema) ==> {
                &&& checked is Ok <==> plan is Ok
                &&& plan is Ok ==> plan->Ok_0 is Run
                &&& plan is Err ==> plan->Err_0@ == checked->Err_0@
            }
        },
{
}

/// How a resume with input goes on: by re-entry the node that yielded is executed
/// with the input, by handoff the node after it without one; either way with the
/// state that was saved, to resolve the interrupt, and with what is needed to
/// undo it kept.
pub proof fn law_input_runs_follow_the_mode<S, N, D, C: Fn(&S) -> String>(
    graph: &Graph<N, D, C>,
    thread_id: &str,
    interrupt_id: &str,
    input: JsonValue,
    loaded: YieldedCheckpoint<S>,
    plan: Result<InputPlan<S>, TakelnError>,
    run: SequentialRun<S>,
    point: ResumePoint<S>,
)
    requires
        call_ensures(
            plan_resume_with_input::<S, N, D, C>,
            (graph, thread_id, interrupt_id, input, ClaimResult::Claimed, Some(loaded)),
            plan,
        ),
        plan == Ok::<InputPlan<S>, TakelnError>(InputPlan::Run { run, point }),
    ensures
        run.state == loaded.state,
        run.state_bytes == loaded.state_bytes,
        run.thread_id@ == thread_id@,
        run.steps == 0,
        !run.entered,
        run.spent.bits == 0,
        run.resolved_interrupt is Some && run.resolved_interrupt->0@ == interrupt_id@,
        loaded.meta.yield_request->0.resume_mode == ResumeMode::ReEntry ==> run.node@
            == loaded.meta.next_node@ && run.pending_input == Some(input),
        loaded.meta.yield_request->0.resume_mode == ResumeMode::Handoff ==> {
            &&& run.pending_input is None
            &&& !graph@.edges.contains_key(loaded.meta.next_node@) ==> run.node@ == "__END__"@
            &&& graph@.edges.contains_key(loaded.meta.next_node@) ==> match graph@.edges[
            loaded.meta.next_node@] {
                EdgeView::Unconditional(target) => run.node@ == target,
                EdgeView::Conditional(condition) => exists|answer: String| #[trigger]
                    condition.ensures((&loaded.state,), answer) && answer@ == run.node@,
            }
        },
        point.thread_id@ == thread_id@,
        point.interrupt_id@ == interrupt_id@,
        point.node == loaded.meta.next_node,
        point.checkpoint_id == loaded.meta.checkpoint_id,
        point.backup == loaded.backup,
        loaded.meta.yield_request == Some(point.request),
{
}

/// What undoes a resume: a checkpoint at the node that yielded, with its request
/// and claimed by nobody.
pub proof fn law_rollbacks_wait_again<S>(point: ResumePoint<S>, save: SaveRequest)
    requires
        call_ensures(ResumePoint::<S>::rollback, (&point,), save),
    ensures
        save@.thread_id == point.thread_id@,
        save@.next_node == point.node@,
        save@.status == CheckpointStatus::Yielded,
        save@.yield_request is Some,
        save@.yield_request->0.interrupt_id == point.request.interrupt_id@,
        save@.yield_request->0.message == point.request.message@,
        save@.yield_request->0.resume_mode == point.request.resume_mode,
        save@.claimed_interrupt is None,
        save@.resolved_interrupt is None,
{
}

/// How a claim is decided: by whether the interrupt was resolved before; then by
/// whether the latest checkpoint runs under it; then by whether that checkpoint
/// waits for it. Everything else is refused.
pub proof fn law_claims_are_decided(
    thread_id: &str,
    interrupt_id: &str,
    resolved: bool,
    last: LatestCheckpoint,
    decision: Result<ClaimResult, TakelnError>,
)
    requires
        call_ensures(decide_claim, (thread_id, interrupt_id, resolved, &Some(last)), decision),
    ensures
        resolved ==> decision == Ok::<ClaimResult, TakelnError>(ClaimResult::AlreadyCompleted),
        !resolved && last.status == CheckpointStatus::Running && last.claimed_interrupt is Some
            && last.claimed_interrupt->0@ == interrupt_id@ ==> decision == Ok::<
            ClaimResult,
            TakelnError,
        >(ClaimResult::InProgress),
        !resolved && last.status == CheckpointStatus::Yielded
            && last.request is Interrupt && last.request->Interrupt_0@ == interrupt_id@
            ==> decision == Ok::<ClaimResult, TakelnError>(ClaimResult::Claimed),
        !resolved && last.status == CheckpointStatus::Yielded && last.request is Interrupt
            && last.request->Interrupt_0@ != interrupt_id@ ==> decision is Err
            && decision->Err_0@ is InvalidResume,
        !resolved && last.status == CheckpointStatus::Yielded && last.request is Absent
            ==> decision is Err && decision->Err_0@ is NothingToResume,
        !resolved && last.status == CheckpointStatus::Yielded && last.request is Unreadable
            ==> decision is Err && decision->Err_0@ is DeserializationError,
        !resolved && last.status == CheckpointStatus::Running && (last.claimed_interrupt is None
            || last.claimed_interrupt->0@ != interrupt_id@) ==> decision is Err
            && decision->Err_0@ is ExecutionError,
        !resolved && last.status != CheckpointStatus::Yielded && last.status
            != CheckpointStatus::Running ==> decision is Err && decision->Err_0@ is NothingToResume,
{
}

/// What a resume of another interrupt than the one waited for is answered, and
/// what a claim on a thread that another resume holds.
pub proof fn law_refused_claims_say_why(
    thread_id: &str,
    interrupt_id: &str,
    last: LatestCheckpoint,
    decision: Result<ClaimResult, TakelnError>,
)
    requires
        call_ensures(decide_claim, (thread_id, interrupt_id, false, &Some(last)), decision),
        decision is Err,
    ensures
        last.status == CheckpointStatus::Yielded && last.request is Interrupt ==> decision->Err_0@
            == TakelnErrorView::InvalidResume(
            "Expected interrupt_id '"@ + last.request->Interrupt_0@ + "', got '"@ + interrupt_id@
                + "'"@,
        ),
        last.status == CheckpointStatus::Running && last.claimed_interrupt is Some
            ==> decision->Err_0@ == TakelnErrorView::ExecutionError(
            "Resume claim failed: thread '"@ + thread_id@
                + "' is already running with claimed_interrupt '"@ + last.claimed_interrupt->0@
                + "'"@,
        ),
        last.status != CheckpointStatus::Yielded && last.status != CheckpointStatus::Running
            ==> decision->Err_0@ == TakelnErrorView::NothingToResume(
            "Thread '"@ + thread_id@ + "' latest checkpoint status is "@ + last.shown_status@
                + ", expected Yielded"@,
        ),
{
}

} // verus!
