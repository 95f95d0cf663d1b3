//! Planning runs over what was saved: from a given node, after a pause, after a
//! crash, and with the input that a yielded node waits for.
//!
//! Every planned run sees the checkpoint that the history of its thread gives
//! for its first node, so that a node which is called again sees what it saw
//! when it was first called.
use crate::checkpoint::{
    wrong_interrupt, wrong_interrupt_error, ClaimResult, SaveRequest, SaveRequestView,
};
use crate::checkpoint_meta::{
    CheckpointMeta, CheckpointMetaView, CheckpointStatus, CrashRecoveryPolicy,
};
use crate::clock::Timestamp;
use crate::dag::{dag_nodes, restored_nodes, DAGNode, DAGNodeView, DAGView, NodeStatus, DAG};
use crate::effects::{checkpoint_saved, effect_list, one_effect, saved_effect, Effect};
use crate::error::{TakelnError, TakelnErrorView};
use crate::graph::{answers, routes_to, Graph, GraphView};
use crate::history::{ExecutionRecord, ExecutionRecordView};
use crate::hitl::{
    compute_response_hash, copy_text, response_hash, ResumeContext, ResumeMode, ResumeRecord,
    YieldRequest,
};
use crate::json::JsonValue;
use crate::schema::{
    enum_accepts, enum_reason, type_accepts, type_reason, validate_input_against_schema,
};
use crate::sequential::SequentialRun;
use crate::text::{same_text, text_option};
use crate::waves::{start_refusal, DagFailure, DagRun};
use vstd::prelude::*;
use vstd::string::*;

verus! {

/// Whether a checkpoint was taken mid-execution: the process crashed.
pub open spec fn crashed(meta: CheckpointMetaView) -> bool {
    meta.status == CheckpointStatus::Running
}

/// Whether a sequential run resumes at `start`: at the node that the checkpoint
/// names, or, where a crash is to be skipped over, at the one that comes after
/// it; after a node without an edge comes the end.
pub open spec fn resumes_at<S, N, D, C: Fn(&S) -> String>(
    graph: GraphView<N, D, C>,
    state: S,
    meta: CheckpointMetaView,
    start: Seq<char>,
) -> bool {
    if crashed(meta) && graph.crash_recovery_policy == CrashRecoveryPolicy::SkipAndContinue {
        routes_to::<S, C>(graph.edges, meta.next_node, state, start)
    } else {
        start == meta.next_node
    }
}

/// The contents of a list of metadata.
pub open spec fn meta_list(metas: Seq<CheckpointMeta>) -> Seq<CheckpointMetaView> {
    metas.map_values(|m: CheckpointMeta| m@)
}

/// Whether a checkpoint was taken at a node that had not completed: one that
/// yielded, or whose resume was under way.
pub open spec fn open_at(meta: CheckpointMetaView, node: Seq<char>) -> bool {
    meta.next_node == node && (meta.status == CheckpointStatus::Yielded || meta.status
        == CheckpointStatus::Running)
}

/// The checkpoint of a thread that its node, where that is next, saw when it was
/// first called: the last one that was not taken at the node itself, if it leads
/// to the node. A node that a run started with saw none.
pub open spec fn seen_by(log: Seq<CheckpointMetaView>, node: Seq<char>) -> Option<Seq<char>>
    decreases log.len(),
{
    if log.len() == 0 {
        None
    } else if open_at(log.last(), node) {
        seen_by(log.drop_last(), node)
    } else if log.last().next_node == node {
        Some(log.last().checkpoint_id)
    } else {
        None
    }
}

/// The checkpoint that a node saw when it was first called.
fn last_seen(history: &Vec<CheckpointMeta>, node: &str) -> (seen: Option<String>)
    ensures
        text_option(seen) == seen_by(meta_list(history@), node@),
{
    let ghost log = meta_list(history@);
    let mut n: usize = history.len();
    assert(log.take(n as int) =~= log);
    while n > 0
        invariant
            n <= history@.len(),
            log == meta_list(history@),
            seen_by(log.take(n as int), node@) == seen_by(log, node@),
        decreases n,
    {
        let meta = &history[n - 1];
        proof {
            assert(log.take(n as int).last() == meta@);
            assert(log.take(n as int).drop_last() =~= log.take(n - 1));
        }
        if !same_text(meta.next_node.as_str(), node) {
            return None;
        }
        match meta.status {
            CheckpointStatus::Yielded | CheckpointStatus::Running => {},
            _ => {
                return Some(meta.checkpoint_id.clone());
            },
        }
        n = n - 1;
    }
    None
}

/// Whether `run` is a run that has not begun, whose first node sees `seen`.
pub open spec fn is_fresh<S>(
    run: SequentialRun<S>,
    thread_id: Seq<char>,
    state: S,
    state_bytes: usize,
    seen: Option<Seq<char>>,
) -> bool {
    &&& run.thread_id@ == thread_id
    &&& run.state == state
    &&& run.state_bytes == state_bytes
    &&& run.steps == 0
    &&& !run.entered
    &&& run.spent.bits == 0
    &&& text_option(run.last_checkpoint_id) == seen
}

/// The error for a sequential crash that is not to be recovered from.
pub open spec fn crash_refusal(thread_id: Seq<char>) -> TakelnErrorView {
    TakelnErrorView::ExecutionError(
        "Checkpoint for thread '"@ + thread_id
            + "' has Running status (crash detected). FailFast policy applied."@,
    )
}

/// The error for a crash of a DAG run that is not to be recovered from.
pub open spec fn dag_crash_refusal(thread_id: Seq<char>) -> TakelnErrorView {
    TakelnErrorView::ExecutionError(
        "DAG checkpoint for thread '"@ + thread_id
            + "' has Running status (crash detected). FailFast policy applied."@,
    )
}

/// Plans to run a thread from a given node. `history` is what the store lists of
/// the thread, oldest first; the node sees the checkpoint that it saw before.
pub fn plan_run<S>(
    thread_id: &str,
    state: S,
    state_bytes: usize,
    start_node: &str,
    history: &Vec<CheckpointMeta>,
) -> (run: SequentialRun<S>)
    ensures
        is_fresh(
            run,
            thread_id@,
            state,
            state_bytes,
            seen_by(meta_list(history@), start_node@),
        ),
        run.node@ == start_node@,
        run.pending_input is None,
        run.resolved_interrupt is None,
{
    let seen = last_seen(history, start_node);
    SequentialRun::begin(thread_id, state, state_bytes, start_node, seen, None, None)
}

/// Plans to resume a thread sequentially from its last checkpoint, if it has
/// one. A crash is treated as the graph's policy says. `history` is what the
/// store lists of the thread, oldest first; the node that the run starts with
/// sees the checkpoint that it saw before.
pub fn plan_resume<S, N, D, C: Fn(&S) -> String>(
    graph: &Graph<N, D, C>,
    thread_id: &str,
    loaded: Option<(S, CheckpointMeta)>,
    history: &Vec<CheckpointMeta>,
    state_bytes: usize,
) -> (plan: Result<Option<SequentialRun<S>>, TakelnError>)
    requires
        answers::<S, C>(graph@.edges),
    ensures
        match loaded {
            None => plan matches Ok(None),
            Some((state, meta)) => if crashed(meta@) && graph@.crash_recovery_policy
                == CrashRecoveryPolicy::FailFast {
                plan is Err && plan->Err_0@ == crash_refusal(thread_id@)
            } else {
                plan matches Ok(Some(run)) && is_fresh(
                    run,
                    thread_id@,
                    state,
                    state_bytes,
                    seen_by(meta_list(history@), run.node@),
                ) && resumes_at::<S, N, D, C>(graph@, state, meta@, run.node@)
                    && run.pending_input is None && run.resolved_interrupt == meta.claimed_interrupt
            },
        },
{
    let (state, meta) = match loaded {
        None => {
            return Ok(None);
        },
        Some(parts) => parts,
    };
    let mut start = meta.next_node;
    if meta.status == CheckpointStatus::Running {
        match graph.crash_policy() {
            CrashRecoveryPolicy::ResetToPending => {},
            CrashRecoveryPolicy::FailFast => {
                let mut text = String::from_str("Checkpoint for thread '");
                text.append(thread_id);
                text.append("' has Running status (crash detected). FailFast policy applied.");
                return Err(TakelnError::ExecutionError(text));
            },
            CrashRecoveryPolicy::SkipAndContinue => {
                start = graph.route(start.as_str(), &state);
            },
        }
    }
    let seen = last_seen(history, start.as_str());
    Ok(
        Some(
            SequentialRun::begin(
                thread_id,
                state,
                state_bytes,
                start.as_str(),
                seen,
                None,
                meta.claimed_interrupt,
            ),
        ),
    )
}

/// The node with which a run resumes that did not crash: one that yielded is
/// pending again.
pub open spec fn reopened_node(node: DAGNodeView) -> DAGNodeView {
    if node.status == NodeStatus::Yielded {
        DAGNodeView { status: NodeStatus::Pending, ..node }
    } else {
        node
    }
}

/// The node after a crash was recovered from: one that was running is pending
/// again, or counts as done where it is to be skipped.
pub open spec fn recovered_node(node: DAGNodeView, policy: CrashRecoveryPolicy) -> DAGNodeView {
    if node.status == NodeStatus::Running {
        match policy {
            CrashRecoveryPolicy::ResetToPending => DAGNodeView {
                status: NodeStatus::Pending,
                ..node
            },
            CrashRecoveryPolicy::SkipAndContinue => DAGNodeView {
                status: NodeStatus::Done,
                ..node
            },
            CrashRecoveryPolicy::FailFast => node,
        }
    } else {
        node
    }
}

/// The nodes after a crash was recovered from.
pub open spec fn recovered_nodes(
    nodes: Seq<DAGNodeView>,
    policy: CrashRecoveryPolicy,
) -> Seq<DAGNodeView> {
    nodes.map_values(|n: DAGNodeView| recovered_node(n, policy))
}

/// The nodes with which a run resumes that did not crash.
pub open spec fn reopened_nodes(nodes: Seq<DAGNodeView>) -> Seq<DAGNodeView> {
    nodes.map_values(|n: DAGNodeView| reopened_node(n))
}

/// The nodes with which a DAG run resumes: those that yielded run again, and
/// those that a crash left running are treated as the policy says.
pub open spec fn resumed_nodes(
    nodes: Seq<DAGNodeView>,
    saved: Seq<DAGNodeView>,
    meta: CheckpointMetaView,
    policy: CrashRecoveryPolicy,
) -> Seq<DAGNodeView> {
    let reopened = reopened_nodes(restored_nodes(nodes, saved));
    if crashed(meta) {
        recovered_nodes(reopened, policy)
    } else {
        reopened
    }
}

/// How a DAG run is resumed.
pub enum DagResume<S> {
    /// There is nothing to resume.
    Nothing(DAG),
    /// The run may not be resumed.
    Failed(DagFailure),
    /// The run goes on.
    Run(DagRun<S>),
}

fn reopen_nodes(nodes: &mut Vec<DAGNode>)
    ensures
        dag_nodes(final(nodes)@) == reopened_nodes(dag_nodes(old(nodes)@)),
{
    let ghost before = dag_nodes(nodes@);
    let mut i: usize = 0;
    while i < nodes.len()
        invariant
            i <= nodes@.len() == before.len(),
            forall|j: int| 0 <= j < i ==> (#[trigger] nodes@[j])@ == reopened_node(before[j]),
            forall|j: int| i <= j < before.len() ==> (#[trigger] nodes@[j])@ == before[j],
        decreases nodes.len() - i,
    {
        assert(nodes@[i as int]@ == before[i as int]);
        if nodes[i].status == NodeStatus::Yielded {
            nodes[i].status = NodeStatus::Pending;
        }
        i = i + 1;
    }
    assert(dag_nodes(nodes@) =~= reopened_nodes(before));
}

fn recover_nodes(nodes: &mut Vec<DAGNode>, policy: CrashRecoveryPolicy)
    ensures
        dag_nodes(final(nodes)@) == recovered_nodes(dag_nodes(old(nodes)@), policy),
{
    let ghost before = dag_nodes(nodes@);
    let mut i: usize = 0;
    while i < nodes.len()
        invariant
            i <= nodes@.len() == before.len(),
            forall|j: int|
                0 <= j < i ==> (#[trigger] nodes@[j])@ == recovered_node(before[j], policy),
            forall|j: int| i <= j < before.len() ==> (#[trigger] nodes@[j])@ == before[j],
        decreases nodes.len() - i,
    {
        assert(nodes@[i as int]@ == before[i as int]);
        if nodes[i].status == NodeStatus::Running {
            match policy {
                CrashRecoveryPolicy::ResetToPending => {
                    nodes[i].status = NodeStatus::Pending;
                },
                CrashRecoveryPolicy::SkipAndContinue => {
                    nodes[i].status = NodeStatus::Done;
                },
                CrashRecoveryPolicy::FailFast => {},
            }
        }
        i = i + 1;
    }
    assert(dag_nodes(nodes@) =~= recovered_nodes(before, policy));
}

/// Plans to resume a DAG run of a thread from its last checkpoint, if that
/// holds a DAG. The statuses are taken from there; nodes that yielded run again,
/// and a crash is treated as the graph's policy says.
pub fn plan_resume_dag<S, N, D, C>(
    graph: &Graph<N, D, C>,
    thread_id: &str,
    dag: DAG,
    loaded: Option<(S, CheckpointMeta, Option<DAG>)>,
    state_bytes: usize,
    depth: u8,
) -> (plan: DagResume<S>)
    ensures
        match loaded {
            Some((state, meta, Some(saved))) => {
                let policy = graph@.crash_recovery_policy;
                if crashed(meta@) && policy == CrashRecoveryPolicy::FailFast {
                    plan matches DagResume::Failed(failure) && failure.error@ == dag_crash_refusal(
                        thread_id@,
                    ) && failure.dag == dag
                } else {
                    let resumed = DAGView {
                        nodes: resumed_nodes(dag@.nodes, saved@.nodes, meta@, policy),
                        ..dag@
                    };
                    match start_refusal(graph@, dag@.nodes.len(), depth) {
                        Some(error) => plan matches DagResume::Failed(failure) && failure.error@
                            == error && failure.dag@ == resumed,
                        None => plan matches DagResume::Run(run) && run.thread_id@ == thread_id@
                            && run.dag@ == resumed && run.state == state && run.state_bytes
                            == state_bytes && !run.entered && run.spent.bits == 0,
                    }
                }
            },
            _ => plan == DagResume::<S>::Nothing(dag),
        },
{
    let (state, meta, saved) = match loaded {
        Some((state, meta, Some(saved))) => (state, meta, saved),
        _ => {
            return DagResume::Nothing(dag);
        },
    };
    let policy = graph.crash_policy();
    let after_crash = meta.status == CheckpointStatus::Running;
    if after_crash && policy == CrashRecoveryPolicy::FailFast {
        let mut text = String::from_str("DAG checkpoint for thread '");
        text.append(thread_id);
        text.append("' has Running status (crash detected). FailFast policy applied.");
        return DagResume::Failed(DagFailure { error: TakelnError::ExecutionError(text), dag });
    }
    let mut dag = dag;
    dag.restore_statuses(&saved);
    reopen_nodes(&mut dag.nodes);
    if after_crash {
        recover_nodes(&mut dag.nodes, policy);
    }
    match DagRun::start(graph, thread_id, dag, state, state_bytes, depth) {
        Ok(run) => DagResume::Run(run),
        Err(failure) => DagResume::Failed(failure),
    }
}

/// What is remembered of a checkpoint while a run resumes it with input.
pub struct ResumePoint<S> {
    pub thread_id: String,
    pub interrupt_id: String,
    /// The node that yielded.
    pub node: String,
    /// The identifier of the checkpoint.
    pub checkpoint_id: String,
    /// The request that is answered.
    pub request: YieldRequest,
    /// The state of the checkpoint, to go back to.
    pub backup: S,
    /// The hash of the input.
    pub response_hash: String,
}

/// How a resume with input goes on.
pub enum InputPlan<S> {
    /// The interrupt was resolved before: the current state is the answer.
    Completed(S),
    /// The run goes on.
    Run { run: SequentialRun<S>, point: ResumePoint<S> },
}

/// What a resume with input finds in the store: the state, a copy of it to go
/// back to, the metadata, and what the store lists of the thread, oldest first.
pub struct YieldedCheckpoint<S> {
    pub state: S,
    pub backup: S,
    pub state_bytes: usize,
    pub meta: CheckpointMeta,
    pub history: Vec<CheckpointMeta>,
}

/// Why a claimed interrupt cannot be resumed with an input.
pub open spec fn input_refusal(
    thread_id: Seq<char>,
    interrupt_id: Seq<char>,
    input: JsonValue,
    request: Option<YieldRequest>,
) -> Option<TakelnErrorView> {
    match request {
        None => Some(
            TakelnErrorView::NothingToResume(
                "Thread '"@ + thread_id + "' has no yield_request metadata"@,
            ),
        ),
        Some(r) => if r.interrupt_id@ != interrupt_id {
            Some(wrong_interrupt(r.interrupt_id@, interrupt_id))
        } else {
            match r.schema {
                None => None,
                Some(schema) => schema_refusal(interrupt_id, input, schema),
            }
        },
    }
}

/// Why an input does not meet a schema.
pub open spec fn schema_refusal(
    interrupt_id: Seq<char>,
    input: JsonValue,
    schema: JsonValue,
) -> Option<TakelnErrorView> {
    if !type_accepts(schema@, input@) {
        Some(
            TakelnErrorView::SchemaValidationFailed {
                interrupt_id,
                reason: type_reason(schema@, input@),
            },
        )
    } else if !enum_accepts(schema.meaning(), input.meaning()) {
        Some(
            TakelnErrorView::SchemaValidationFailed {
                interrupt_id,
                reason: enum_reason(schema@, input@),
            },
        )
    } else {
        None
    }
}

/// Whether `plan` resumes a claimed checkpoint with `input`.
pub open spec fn is_input_run<S, N, D, C: Fn(&S) -> String>(
    graph: GraphView<N, D, C>,
    thread_id: Seq<char>,
    interrupt_id: Seq<char>,
    input: JsonValue,
    loaded: YieldedCheckpoint<S>,
    run: SequentialRun<S>,
    point: ResumePoint<S>,
) -> bool {
    let request = loaded.meta.yield_request->0;
    &&& is_fresh(
        run,
        thread_id,
        loaded.state,
        loaded.state_bytes,
        seen_by(meta_list(loaded.history@), run.node@),
    )
    &&& text_option(run.resolved_interrupt) == Some(interrupt_id)
    &&& match request.resume_mode {
        ResumeMode::ReEntry => {
            &&& run.node@ == loaded.meta.next_node@
            &&& run.pending_input == Some(input)
        },
        ResumeMode::Handoff => {
            &&& routes_to::<S, C>(graph.edges, loaded.meta.next_node@, loaded.state, run.node@)
            &&& run.pending_input is None
        },
    }
    &&& point.thread_id@ == thread_id
    &&& point.interrupt_id@ == interrupt_id
    &&& point.node == loaded.meta.next_node
    &&& point.checkpoint_id == loaded.meta.checkpoint_id
    &&& point.request == request
    &&& point.backup == loaded.backup
    &&& point.response_hash@ == response_hash(input@)
}

/// Plans to resume a yielded thread with input, after its interrupt was
/// claimed.
///
/// An interrupt that was resolved before gives the current state, so that it is
/// safe to retry. Otherwise the input is checked, and the run resumes as the
/// request says: it executes the yielded node again with the input, or hands
/// off to the node after it.
pub fn plan_resume_with_input<S, N, D, C: Fn(&S) -> String>(
    graph: &Graph<N, D, C>,
    thread_id: &str,
    interrupt_id: &str,
    input: JsonValue,
    claim: ClaimResult,
    loaded: Option<YieldedCheckpoint<S>>,
) -> (plan: Result<InputPlan<S>, TakelnError>)
    requires
        answers::<S, C>(graph@.edges),
    ensures
        match loaded {
            None => plan is Err && plan->Err_0@ == TakelnErrorView::NothingToResume(thread_id@),
            Some(l) => match claim {
                ClaimResult::AlreadyCompleted => plan matches Ok(InputPlan::Completed(state))
                    && state == l.state,
                ClaimResult::InProgress => plan is Err && plan->Err_0@
                    == TakelnErrorView::ExecutionError(
                    "Resume in progress for interrupt '"@ + interrupt_id@ + "' on thread '"@
                        + thread_id@ + "'"@,
                ),
                ClaimResult::Claimed => match input_refusal(
                    thread_id@,
                    interrupt_id@,
                    input,
                    l.meta.yield_request,
                ) {
                    Some(error) => plan is Err && plan->Err_0@ == error,
                    None => plan matches Ok(InputPlan::Run { run, point }) && is_input_run::<
                        S,
                        N,
                        D,
                        C,
                    >(graph@, thread_id@, interrupt_id@, input, l, run, point),
                },
            },
        },
{
    let loaded = match loaded {
        None => {
            return Err(TakelnError::NothingToResume(thread_id.to_owned()));
        },
        Some(l) => l,
    };
    match claim {
        ClaimResult::AlreadyCompleted => {
            return Ok(InputPlan::Completed(loaded.state));
        },
        ClaimResult::InProgress => {
            let mut text = String::from_str("Resume in progress for interrupt '");
            text.append(interrupt_id);
            text.append("' on thread '");
            text.append(thread_id);
            text.append("'");
            return Err(TakelnError::ExecutionError(text));
        },
        ClaimResult::Claimed => {},
    }
    let request = match loaded.meta.yield_request {
        None => {
            let mut text = String::from_str("Thread '");
            text.append(thread_id);
            text.append("' has no yield_request metadata");
            return Err(TakelnError::NothingToResume(text));
        },
        Some(r) => r,
    };
    if !same_text(request.interrupt_id.as_str(), interrupt_id) {
        return Err(wrong_interrupt_error(request.interrupt_id.as_str(), interrupt_id));
    }
    match &request.schema {
        Some(schema) => {
            match validate_input_against_schema(interrupt_id, &input, schema) {
                Err(error) => {
                    return Err(error);
                },
                Ok(()) => {},
            }
        },
        None => {},
    }
    let hash = compute_response_hash(&input);
    let resolved = Some(interrupt_id.to_owned());
    let run = match request.resume_mode {
        ResumeMode::ReEntry => {
            let node = loaded.meta.next_node.as_str();
            let seen = last_seen(&loaded.history, node);
            SequentialRun::begin(
                thread_id,
                loaded.state,
                loaded.state_bytes,
                node,
                seen,
                Some(input),
                resolved,
            )
        },
        ResumeMode::Handoff => {
            let next = graph.route(loaded.meta.next_node.as_str(), &loaded.state);
            let seen = last_seen(&loaded.history, next.as_str());
            SequentialRun::begin(
                thread_id,
                loaded.state,
                loaded.state_bytes,
                next.as_str(),
                seen,
                None,
                resolved,
            )
        },
    };
    let point = ResumePoint {
        thread_id: thread_id.to_owned(),
        interrupt_id: interrupt_id.to_owned(),
        node: loaded.meta.next_node,
        checkpoint_id: loaded.meta.checkpoint_id,
        request,
        backup: loaded.backup,
        response_hash: hash,
    };
    Ok(InputPlan::Run { run, point })
}

/// The checkpoint that undoes a resume: yielded again, and claimed by nobody.
pub open spec fn rollback_save<S>(point: ResumePoint<S>) -> SaveRequestView {
    SaveRequestView {
        thread_id: point.thread_id@,
        next_node: point.node@,
        status: CheckpointStatus::Yielded,
        yield_request: Some(point.request@),
        claimed_interrupt: None,
        resolved_interrupt: None,
    }
}

impl<S> ResumePoint<S> {
    /// What is to be saved, with the state to go back to, after the run failed.
    pub fn rollback(&self) -> (save: SaveRequest)
        ensures
            save@ == rollback_save(*self),
    {
        SaveRequest {
            thread_id: self.thread_id.clone(),
            next_node: self.node.clone(),
            status: CheckpointStatus::Yielded,
            yield_request: Some(self.request.clone()),
            claimed_interrupt: None,
            resolved_interrupt: None,
        }
    }

    /// Takes back that the checkpoint which undoes the resume was saved.
    pub fn rolled_back(&self, checkpoint_id: &str) -> (effects: Vec<Effect>)
        ensures
            effect_list(effects@) == seq![checkpoint_saved(self.thread_id@, checkpoint_id@)],
    {
        one_effect(saved_effect(self.thread_id.as_str(), checkpoint_id))
    }

    /// The audit record and the history record of a resume that succeeded.
    pub fn completed(self, context: &ResumeContext, resumed_at: Timestamp) -> (records: (
        ResumeRecord,
        ExecutionRecord,
    ))
        ensures
            records.0 == (ResumeRecord {
                interrupt_id: self.interrupt_id,
                thread_id: self.thread_id,
                node_name: self.node,
                actor: context.actor,
                resumed_at,
                response_hash: self.response_hash,
            }),
            records.1@ == (ExecutionRecordView {
                node_name: self.node@,
                started_at: resumed_at,
                duration_ms: 0,
                status: "resumed"@,
                cost_eur: None,
                checkpoint_id: Some(self.checkpoint_id@),
                attempts: 0,
                actor: text_option(context.actor),
                response_hash: Some(self.response_hash@),
            }),
    {
        let execution = ExecutionRecord {
            node_name: self.node.clone(),
            started_at: resumed_at,
            duration_ms: 0,
            status: "resumed".to_owned(),
            cost_eur: None,
            checkpoint_id: Some(self.checkpoint_id),
            attempts: 0,
            actor: copy_text(&context.actor),
            response_hash: Some(self.response_hash.clone()),
        };
        let record = ResumeRecord {
            interrupt_id: self.interrupt_id,
            thread_id: self.thread_id,
            node_name: self.node,
            actor: copy_text(&context.actor),
            resumed_at,
            response_hash: self.response_hash,
        };
        (record, execution)
    }
}

/// The error for a resume that failed and could not be undone, from the texts
/// of the two failures.
pub fn rollback_error(execution: &str, save: &str) -> (error: TakelnError)
    ensures
        error@ == TakelnErrorView::ExecutionError(
            "Execution failed: "@ + execution@ + ". Rollback save failed: "@ + save@,
        ),
{
    let mut text = String::from_str("Execution failed: ");
    text.append(execution);
    text.append(". Rollback save failed: ");
    text.append(save);
    TakelnError::ExecutionError(text)
}

} // verus!
