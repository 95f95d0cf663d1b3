//! Parallel execution of a DAG, wave by wave.
//!
//! A run is a value that passes through phases. Each phase says what its
//! surroundings are to do (run the nodes of a wave, save a checkpoint) and takes
//! the outcome back to get to the next phase:
//!
//! ```text
//! DagRun --next_wave--> Wave --settle--> MergedWave --checkpoint, saved--> DagRun
//!                        |  ^ collect each node
//! ```
//!
//! What the nodes of a wave did is made known together, in the order of their
//! arrival: once the checkpoint of the wave is saved, so that spans and records
//! name it, or when the run fails, without one.
use crate::checkpoint::{SaveRequest, SaveRequestView};
use crate::checkpoint_meta::CheckpointStatus;
use crate::dag::{DAGNodeView, DAGView, NodeStatus, DAG};
use crate::effects::{
    add_effect, add_reports, all_reported, checkpoint_saved, complete_effect, effect_list,
    graph_complete, graph_finished, graph_finished_effect, one_effect, report_effects, report_list,
    saved_effect, Effect, NodeReport, NodeReportView,
};
use crate::emitter::{
    error_cost, error_cost_of, span_error, span_error_of, span_error_option, SpanError,
    SpanErrorView, SpanStatus,
};
use crate::error::{graph_error_message, GraphError, GraphErrorView, TakelnError, TakelnErrorView};
use crate::graph::{
    end_name, no_meta, number_after, EventSequence, Graph, GraphView, NodeMeta, NodeMetaView,
    NodeOutput, WaveFailurePolicy,
};
use crate::hitl::{copy_request, request_option, YieldRequest};
use crate::identity::{hyphenated, id_text};
use crate::merge::{lemma_merged_one_more, merged_all, Merge};
use crate::money::{amount_or_zero, or_zero, over, Eur};
use crate::readiness::{
    any_in, as_indices, collect_names, find_ready, launched, mark_running, names_at, pending_names,
    ready_wave, unfinished_names, waiting_names, with_status,
};
use crate::tasks::{NodeTask, TaskTiming};
use crate::text::{decimal, decimal_text, join, joined, text_list, text_pairs};
use vstd::prelude::*;
use vstd::string::*;

verus! {

/// The deepest nesting of DAG runs.
pub const MAX_DEPTH: u8 = 8;

/// A DAG run between two waves.
pub struct DagRun<S> {
    /// The thread that checkpoints are saved under.
    pub thread_id: String,
    /// The DAG with the statuses so far.
    pub dag: DAG,
    /// The state so far.
    pub state: S,
    /// The size of the state as a checkpoint payload.
    pub state_bytes: usize,
    /// Whether a wave was launched in this run.
    pub entered: bool,
    /// What the waves of this run cost so far.
    pub spent: Eur,
}

/// The error that ends a DAG run, and the DAG as it then stands.
#[derive(Debug)]
pub struct DagFailure {
    pub error: TakelnError,
    pub dag: DAG,
}

/// A wave whose nodes are running.
pub struct Wave<S> {
    pub run: DagRun<S>,
    /// The indices of the nodes of the wave, ascending.
    pub members: Vec<usize>,
    /// The states of the nodes that succeeded, by node index.
    pub states: Vec<(usize, S)>,
    /// The names of the nodes that succeeded, in the order of their arrival.
    pub succeeded: Vec<String>,
    /// The names and errors of the nodes that failed, in the order of their
    /// arrival.
    pub failed: Vec<(String, String)>,
    /// The request of the node that yielded last.
    pub yielded: Option<YieldRequest>,
    /// What is known of the nodes that ended, in the order of their arrival.
    pub reports: Vec<NodeReport>,
}

/// A wave whose results are merged into the state of the run.
pub struct MergedWave<S> {
    pub run: DagRun<S>,
    pub members: Vec<usize>,
    /// The request of the node that yielded last.
    pub yielded: Option<YieldRequest>,
    /// What is known of the nodes that ended.
    pub reports: Vec<NodeReport>,
}

/// How a wave begins.
pub enum NextWave<S> {
    /// The run ends with an error.
    Failed(DagFailure),
    /// The run ends with a state.
    Finished { state: S, dag: DAG, effects: Vec<Effect> },
    /// The run ends with its state, once the checkpoint is saved.
    Paused { run: DagRun<S>, save: SaveRequest },
    /// The tasks are to be run.
    Launch { wave: Wave<S>, tasks: Vec<NodeTask> },
}

/// What follows the result of one node.
pub enum Collected<S> {
    /// The wave goes on.
    Continue(Wave<S>),
    /// The run ends with an error; nodes that still run are abandoned.
    Failed { failure: DagFailure, effects: Vec<Effect> },
}

/// What follows the results of all nodes.
pub enum Settled<S> {
    /// The run ends with an error.
    Failed { failure: DagFailure, effects: Vec<Effect> },
    /// The results are merged.
    Merged(MergedWave<S>),
}

/// What follows the merged state of a wave.
pub enum Checkpointed<S> {
    /// The run ends with an error.
    Failed { failure: DagFailure, effects: Vec<Effect> },
    /// The checkpoint is to be saved.
    Save { merged: MergedWave<S>, save: SaveRequest },
}

/// What follows the checkpoint of a wave.
pub enum AfterWave<S> {
    /// The run goes on.
    Continue { run: DagRun<S>, effects: Vec<Effect> },
    /// The run ends with a state.
    Finished { state: S, dag: DAG, effects: Vec<Effect> },
}

/// Why a DAG may not be run at all.
pub open spec fn start_refusal<N, D, C>(
    graph: GraphView<N, D, C>,
    size: nat,
    depth: u8,
) -> Option<TakelnErrorView> {
    if depth > MAX_DEPTH {
        Some(TakelnErrorView::RecursionLimitExceeded { depth, limit: MAX_DEPTH })
    } else if size > graph.resource_limits.max_dag_nodes {
        Some(
            TakelnErrorView::ExecutionError(
                "DAG has "@ + decimal(size) + " nodes, exceeding max_dag_nodes limit of "@
                    + decimal(graph.resource_limits.max_dag_nodes as nat),
            ),
        )
    } else {
        None
    }
}

/// Whether the members are indices of nodes.
pub open spec fn are_nodes(members: Seq<usize>, nodes: Seq<DAGNodeView>) -> bool {
    forall|k: int| 0 <= k < members.len() ==> (#[trigger] members[k]) < nodes.len()
}

/// Whether `next` is how the next wave of `run` begins, with `n` as the number
/// of the next event.
pub open spec fn is_next_wave<S, N, D, C>(
    graph: GraphView<N, D, C>,
    run: DagRun<S>,
    n: u64,
    next: NextWave<S>,
) -> bool {
    let nodes = run.dag@.nodes;
    let ready = ready_wave(nodes);
    let names = names_at(nodes, ready);
    if ready.len() == 0 && pending_names(nodes).len() > 0 {
        next matches NextWave::Failed(failure) && failure.error@ == TakelnErrorView::DAGDeadlock(
            joined(pending_names(nodes), ", "@),
        ) && failure.dag == run.dag
    } else if ready.len() == 0 {
        next matches NextWave::Finished { state, dag, effects } && state == run.state && dag
            == run.dag && effect_list(effects@) == seq![
            graph_complete(run.thread_id@, run.spent),
            graph_finished(run.thread_id@, run.spent, n),
        ]
    } else if run.entered && any_in(names, graph.interrupt_before) {
        if graph.fits(run.state_bytes) {
            next matches NextWave::Paused { run: paused, save } && paused == run && save@ == (
            SaveRequestView {
                thread_id: run.thread_id@,
                next_node: joined(names, ","@),
                status: CheckpointStatus::Interrupted,
                yield_request: None,
                claimed_interrupt: None,
                resolved_interrupt: None,
            })
        } else {
            next matches NextWave::Failed(failure) && failure.error@ == graph.too_large(
                run.state_bytes,
            ) && failure.dag == run.dag
        }
    } else if exists|k: int| 0 <= k < names.len() && !graph.registered(#[trigger] names[k]) {
        next matches NextWave::Failed(failure) && is_first_missing(graph, names, failure.error@)
            && failure.dag@ == (DAGView { nodes: launched(nodes), ..run.dag@ })
    } else {
        next matches NextWave::Launch { wave, tasks } && is_launched(run, wave) && is_tasks(
            graph,
            run,
            tasks@,
        )
    }
}

/// Whether the error names the first node of the list that is not registered.
pub open spec fn is_first_missing<N, D, C>(
    graph: GraphView<N, D, C>,
    names: Seq<Seq<char>>,
    error: TakelnErrorView,
) -> bool {
    exists|k: int|
        {
            &&& 0 <= k < names.len()
            &&& !graph.registered(#[trigger] names[k])
            &&& forall|m: int| 0 <= m < k ==> graph.registered(#[trigger] names[m])
            &&& error == TakelnErrorView::NodeNotFound(names[k])
        }
}

/// Whether `wave` is the wave of all nodes of `run` that can run, just started.
pub open spec fn is_launched<S>(run: DagRun<S>, wave: Wave<S>) -> bool {
    &&& wave.run.thread_id == run.thread_id
    &&& wave.run.dag@ == (DAGView { nodes: launched(run.dag@.nodes), ..run.dag@ })
    &&& wave.run.state == run.state
    &&& wave.run.state_bytes == run.state_bytes
    &&& wave.run.entered
    &&& wave.run.spent == run.spent
    &&& as_indices(wave.members@) == ready_wave(run.dag@.nodes)
    &&& wave.states@.len() == 0
    &&& wave.succeeded@.len() == 0
    &&& wave.failed@.len() == 0
    &&& wave.yielded is None
    &&& wave.reports@.len() == 0
}

/// Whether `tasks` are those of the nodes of `run` that can run.
pub open spec fn is_tasks<S, N, D, C>(
    graph: GraphView<N, D, C>,
    run: DagRun<S>,
    tasks: Seq<NodeTask>,
) -> bool {
    let nodes = run.dag@.nodes;
    let ready = ready_wave(nodes);
    &&& tasks.len() == ready.len()
    &&& forall|k: int|
        0 <= k < tasks.len() ==> is_task(
            graph,
            run.thread_id@,
            run.dag@,
            ready[k],
            #[trigger] tasks[k],
        )
}

/// Whether `task` is that of node `i`.
pub open spec fn is_task<N, D, C>(
    graph: GraphView<N, D, C>,
    thread_id: Seq<char>,
    dag: DAGView,
    i: int,
    task: NodeTask,
) -> bool {
    let name = dag.nodes[i].step_type;
    &&& task.index == i
    &&& task.thread_id@ == thread_id
    &&& task.dag_id@ == hyphenated(dag.id)
    &&& task.node_name@ == name
    &&& task.dynamic == graph.dynamic_nodes.contains_key(name)
    &&& task.retry == graph.retry_for(name)
    &&& task.timeout == graph.timeout_for(name)
}

impl<S> DagRun<S> {
    /// A run of a DAG, unless it is nested too deep or has too many nodes.
    pub fn start<N, D, C>(
        graph: &Graph<N, D, C>,
        thread_id: &str,
        dag: DAG,
        state: S,
        state_bytes: usize,
        depth: u8,
    ) -> (started: Result<DagRun<S>, DagFailure>)
        ensures
            match start_refusal(graph@, dag@.nodes.len(), depth) {
                Some(error) => started is Err && started->Err_0.error@ == error
                    && started->Err_0.dag == dag,
                None => {
                    &&& started is Ok
                    &&& started->Ok_0.thread_id@ == thread_id@
                    &&& started->Ok_0.dag == dag
                    &&& started->Ok_0.state == state
                    &&& started->Ok_0.state_bytes == state_bytes
                    &&& !started->Ok_0.entered
                    &&& started->Ok_0.spent.bits == 0
                },
            },
    {
        if depth > MAX_DEPTH {
            return Err(
                DagFailure {
                    error: TakelnError::RecursionLimitExceeded { depth, limit: MAX_DEPTH },
                    dag,
                },
            );
        }
        let limit: usize = graph.limits().max_dag_nodes;
        if dag.nodes.len() > limit {
            let mut text = String::from_str("DAG has ");
            text.append(decimal_text(dag.nodes.len() as u64).as_str());
            text.append(" nodes, exceeding max_dag_nodes limit of ");
            text.append(decimal_text(limit as u64).as_str());
            return Err(DagFailure { error: TakelnError::ExecutionError(text), dag });
        }
        Ok(
            DagRun {
                thread_id: thread_id.to_owned(),
                dag,
                state,
                state_bytes,
                entered: false,
                spent: Eur::zero(),
            },
        )
    }

    /// Begins the next wave.
    ///
    /// A run with nothing left to do finishes; one whose remaining nodes wait
    /// for what is never done fails; one whose wave, other than the first, has
    /// an interrupt before a node pauses; otherwise all nodes that can run are
    /// launched.
    pub fn next_wave<N, D, C>(
        self,
        graph: &Graph<N, D, C>,
        events: &mut EventSequence,
    ) -> (next: NextWave<S>)
        ensures
            is_next_wave(graph@, self, old(events).next, next),
            final(events).next == if next is Finished {
                number_after(old(events).next)
            } else {
                old(events).next
            },
            next matches NextWave::Launch { wave, .. } ==> wave.wf(),
    {
        let ghost nodes = self.dag@.nodes;
        let ready: Vec<usize> = find_ready(&self.dag.nodes);
        assert(as_indices(ready@).len() == ready@.len());
        if ready.len() == 0 {
            let pending = waiting_names(&self.dag.nodes, false);
            assert(text_list(pending@).len() == pending@.len());
            if pending.len() > 0 {
                return NextWave::Failed(
                    DagFailure {
                        error: TakelnError::DAGDeadlock(join(&pending, ", ")),
                        dag: self.dag,
                    },
                );
            }
            let mut effects = one_effect(complete_effect(self.thread_id.as_str(), self.spent));
            let number: u64 = events.next_seq();
            add_effect(
                &mut effects,
                graph_finished_effect(self.thread_id.as_str(), self.spent, number),
            );
            assert(effect_list(effects@) =~= seq![
                graph_complete(self.thread_id@, self.spent),
                graph_finished(self.thread_id@, self.spent, number),
            ]);
            return NextWave::Finished { state: self.state, dag: self.dag, effects };
        }
        let names = collect_names(&self.dag.nodes, &ready);
        let ghost views = names_at(nodes, ready_wave(nodes));
        assert(text_list(names@) == views);
        assert forall|k: int| 0 <= k < names@.len() implies views[k] == (
        #[trigger] names@[k])@ by {
            assert(text_list(names@)[k] == names@[k]@);
        }
        if self.entered && any_interrupt(graph, &names, true) {
            match graph.check_checkpoint_size(self.state_bytes) {
                Err(error) => {
                    return NextWave::Failed(DagFailure { error, dag: self.dag });
                },
                Ok(()) => {},
            }
            let save = SaveRequest {
                thread_id: self.thread_id.clone(),
                next_node: join(&names, ","),
                status: CheckpointStatus::Interrupted,
                yield_request: None,
                claimed_interrupt: None,
                resolved_interrupt: None,
            };
            return NextWave::Paused { run: self, save };
        }
        let mut dag = self.dag;
        mark_running(&mut dag.nodes, &ready);
        let mut tasks: Vec<NodeTask> = Vec::new();
        let mut k: usize = 0;
        while k < ready.len()
            invariant
                k <= ready@.len() == names@.len() == views.len(),
                tasks@.len() == k,
                as_indices(ready@) == ready_wave(nodes),
                views == names_at(nodes, ready_wave(nodes)),
                nodes == self.dag@.nodes,
                forall|m: int| 0 <= m < names@.len() ==> views[m] == (#[trigger] names@[m])@,
                forall|m: int| 0 <= m < k ==> graph@.registered(#[trigger] views[m]),
                forall|m: int|
                    0 <= m < k ==> is_task(
                        graph@,
                        self.thread_id@,
                        self.dag@,
                        ready_wave(nodes)[m],
                        #[trigger] tasks@[m],
                    ),
                !(self.entered && any_in(views, graph@.interrupt_before)),
                dag@ == (DAGView { nodes: launched(nodes), ..self.dag@ }),
                ready@.len() > 0,
                forall|m: int| 0 <= m < ready@.len() ==> (#[trigger] ready@[m]) < nodes.len(),
                events.next == old(events).next,
            decreases ready.len() - k,
        {
            let name = names[k].as_str();
            assert(name@ == views[k as int]);
            if !graph.is_registered(name) {
                let error = TakelnError::NodeNotFound(names[k].clone());
                assert(is_first_missing(graph@, views, error@));
                return NextWave::Failed(DagFailure { error, dag });
            }
            let config = graph.effective_config(name);
            let task = NodeTask {
                index: ready[k],
                thread_id: self.thread_id.clone(),
                dag_id: id_text(dag.id),
                node_name: names[k].clone(),
                dynamic: graph.is_dynamic(name),
                retry: config.0,
                timeout: config.1,
            };
            proof {
                assert(ready_wave(nodes)[k as int] == as_indices(ready@)[k as int]);
                assert(is_task(
                    graph@,
                    self.thread_id@,
                    self.dag@,
                    ready_wave(nodes)[k as int],
                    task,
                ));
            }
            tasks.push(task);
            k = k + 1;
        }
        let wave = Wave {
            run: DagRun {
                thread_id: self.thread_id,
                dag,
                state: self.state,
                state_bytes: self.state_bytes,
                entered: true,
                spent: self.spent,
            },
            members: ready,
            states: Vec::new(),
            succeeded: Vec::new(),
            failed: Vec::new(),
            yielded: None,
            reports: Vec::new(),
        };
        NextWave::Launch { wave, tasks }
    }

    /// Ends a run that paused, after its checkpoint was saved.
    pub fn paused(self, checkpoint_id: &str, events: &mut EventSequence) -> (ended: (
        S,
        DAG,
        Vec<Effect>,
    ))
        ensures
            ended.0 == self.state,
            ended.1 == self.dag,
            effect_list(ended.2@) == seq![
                checkpoint_saved(self.thread_id@, checkpoint_id@),
                graph_finished(self.thread_id@, self.spent, old(events).next),
            ],
            final(events).next == number_after(old(events).next),
    {
        let mut effects = one_effect(saved_effect(self.thread_id.as_str(), checkpoint_id));
        let number: u64 = events.next_seq();
        add_effect(
            &mut effects,
            graph_finished_effect(self.thread_id.as_str(), self.spent, number),
        );
        assert(effect_list(effects@) =~= seq![
            checkpoint_saved(self.thread_id@, checkpoint_id@),
            graph_finished(self.thread_id@, self.spent, number),
        ]);
        (self.state, self.dag, effects)
    }
}

/// Whether some name of the list has an interrupt before it, or after it.
fn any_interrupt<N, D, C>(graph: &Graph<N, D, C>, names: &Vec<String>, before: bool) -> (found: bool)
    ensures
        found == any_in(
            text_list(names@),
            if before {
                graph@.interrupt_before
            } else {
                graph@.interrupt_after
            },
        ),
{
    let ghost views = text_list(names@);
    let ghost set = if before {
        graph@.interrupt_before
    } else {
        graph@.interrupt_after
    };
    let mut k: usize = 0;
    while k < names.len()
        invariant
            k <= names@.len(),
            views == text_list(names@),
            set == if before {
                graph@.interrupt_before
            } else {
                graph@.interrupt_after
            },
            forall|m: int| 0 <= m < k ==> !set.contains(#[trigger] views[m]),
        decreases names.len() - k,
    {
        let name = names[k].as_str();
        assert(views[k as int] == name@);
        let hit = if before {
            graph.interrupts_before(name)
        } else {
            graph.interrupts_after(name)
        };
        if hit {
            return true;
        }
        k = k + 1;
    }
    false
}

/// The results with one more, in the order of the node indices; a result comes
/// after those of the same index.
pub open spec fn put<S>(states: Seq<(usize, S)>, index: usize, state: S) -> Seq<(usize, S)>
    decreases states.len(),
{
    if states.len() == 0 || states.last().0 <= index {
        states.push((index, state))
    } else {
        put(states.drop_last(), index, state).push(states.last())
    }
}

/// Putting a result inserts it before the results of larger indices.
proof fn lemma_put_inserts<S>(states: Seq<(usize, S)>, index: usize, state: S, at: int)
    requires
        0 <= at <= states.len(),
        forall|j: int| at <= j < states.len() ==> (#[trigger] states[j]).0 > index,
        at > 0 ==> states[at - 1].0 <= index,
    ensures
        put(states, index, state) == states.insert(at, (index, state)),
    decreases states.len(),
{
    if states.len() == 0 || states.last().0 <= index {
        if states.len() > 0 {
            assert(states[states.len() - 1].0 <= index);
        }
        assert(at == states.len());
        assert(states.push((index, state)) =~= states.insert(at, (index, state)));
    } else {
        let rest = states.drop_last();
        if at == states.len() {
            assert(states[at - 1] == states.last());
        }
        assert(at <= rest.len());
        assert forall|j: int| at <= j < rest.len() implies (#[trigger] rest[j]).0 > index by {
            assert(rest[j] == states[j]);
        }
        lemma_put_inserts(rest, index, state, at);
        assert(rest.insert(at, (index, state)).push(states.last()) =~= states.insert(
            at,
            (index, state),
        ));
    }
}

/// Puts a result in its place.
fn put_state<S>(states: &mut Vec<(usize, S)>, index: usize, state: S)
    ensures
        final(states)@ == put(old(states)@, index, state),
{
    let mut at: usize = states.len();
    while at > 0 && states[at - 1].0 > index
        invariant
            at <= states@.len(),
            states@ == old(states)@,
            forall|j: int| at <= j < states@.len() ==> (#[trigger] states@[j]).0 > index,
        decreases at,
    {
        at = at - 1;
    }
    proof {
        lemma_put_inserts(states@, index, state, at as int);
    }
    states.insert(at, (index, state));
}

/// What is known of a node of a wave that ended.
pub open spec fn wave_report<S>(
    run: DagRun<S>,
    name: Seq<char>,
    timing: TaskTiming,
    cost_eur: Option<Eur>,
    status: SpanStatus,
    error: Option<SpanErrorView>,
    meta: NodeMetaView,
) -> NodeReportView {
    NodeReportView {
        thread_id: run.thread_id@,
        node_name: name,
        dag_id: Some(hyphenated(run.dag@.id)),
        attempt: timing.attempt,
        started_at: timing.started_at,
        duration_ms: timing.duration_ms,
        cost_eur,
        status,
        error,
        meta,
    }
}

/// Whether `after` is what follows the success of node `index`.
pub open spec fn is_collected<S, N, D, C>(
    graph: GraphView<N, D, C>,
    wave: Wave<S>,
    index: usize,
    output: NodeOutput<S>,
    timing: TaskTiming,
    after: Collected<S>,
) -> bool {
    let nodes = wave.run.dag@.nodes;
    let name = nodes[index as int].step_type;
    let cost = amount_or_zero(output.meta.cost_eur);
    let limit = graph.node_budget(name);
    if over(limit, cost) {
        let report = wave_report(
            wave.run,
            name,
            timing,
            Some(cost),
            SpanStatus::Error,
            Some(SpanErrorView::Budget { spent_eur: cost, limit_eur: limit->0 }),
            no_meta(),
        );
        after matches Collected::Failed { failure, effects } && failure.error@ == (
        TakelnErrorView::BudgetExceeded { spent_eur: cost, limit_eur: limit->0 }) && failure.dag
            == wave.run.dag && effect_list(effects@) == all_reported(
            report_list(wave.reports@).push(report),
            None,
        )
    } else {
        let report = wave_report(
            wave.run,
            name,
            timing,
            output.meta.cost_eur,
            SpanStatus::Success,
            None,
            output.meta@,
        );
        after matches Collected::Continue(next) && next.run.dag@ == (DAGView {
            nodes: with_status(nodes, index as int, NodeStatus::Done),
            ..wave.run.dag@
        }) && same_run(wave.run, next.run) && next.members == wave.members && next.states@ == put(
            wave.states@,
            index,
            output.state,
        ) && text_list(next.succeeded@) == text_list(wave.succeeded@).push(name) && next.failed
            == wave.failed && next.yielded == wave.yielded && report_list(next.reports@)
            == report_list(wave.reports@).push(report)
    }
}

/// Whether two runs differ at most in their DAGs.
pub open spec fn same_run<S>(a: DagRun<S>, b: DagRun<S>) -> bool {
    b == (DagRun { dag: b.dag, ..a })
}

/// Whether `after` is what follows an error of node `index`.
pub open spec fn is_collected_error<S, N, D, C>(
    graph: GraphView<N, D, C>,
    wave: Wave<S>,
    index: usize,
    error: GraphErrorView,
    timing: TaskTiming,
    after: Collected<S>,
) -> bool {
    let nodes = wave.run.dag@.nodes;
    let name = nodes[index as int].step_type;
    let failed_dag = DAGView {
        nodes: with_status(nodes, index as int, NodeStatus::Failed),
        ..wave.run.dag@
    };
    let report = wave_report(
        wave.run,
        name,
        timing,
        error_cost(error),
        if error is Yield {
            SpanStatus::Cancelled
        } else {
            SpanStatus::Error
        },
        Some(span_error(error)),
        no_meta(),
    );
    let reports = report_list(wave.reports@).push(report);
    match error {
        GraphErrorView::Yield(request) => {
            after matches Collected::Continue(next) && next.run.dag@ == (DAGView {
                nodes: with_status(nodes, index as int, NodeStatus::Yielded),
                ..wave.run.dag@
            }) && same_run(wave.run, next.run) && next.members == wave.members && next.states
                == wave.states && next.succeeded == wave.succeeded && next.failed == wave.failed
                && request_option(next.yielded) == Some(request) && report_list(next.reports@)
                == reports
        },
        GraphErrorView::BudgetExceeded { spent_eur, limit_eur } => {
            after matches Collected::Failed { failure, effects } && failure.error@ == (
            TakelnErrorView::BudgetExceeded { spent_eur, limit_eur }) && failure.dag@ == failed_dag
                && effect_list(effects@) == all_reported(reports, None)
        },
        _ => match graph.wave_failure_policy {
            WaveFailurePolicy::FailFast => {
                after matches Collected::Failed { failure, effects } && failure.error@
                    == TakelnErrorView::ExecutionError(
                    "Node "@ + name + " failed: "@ + graph_error_message(error),
                ) && failure.dag@ == failed_dag && effect_list(effects@) == all_reported(
                    reports,
                    None,
                )
            },
            WaveFailurePolicy::ContinueOnError => {
                after matches Collected::Continue(next) && next.run.dag@ == failed_dag && same_run(
                    wave.run,
                    next.run,
                ) && next.members == wave.members && next.states == wave.states && next.succeeded
                    == wave.succeeded && text_pairs(next.failed@) == text_pairs(
                    wave.failed@,
                ).push((name, graph_error_message(error))) && next.yielded == wave.yielded
                    && report_list(next.reports@) == reports
            },
        },
    }
}

/// Changes the status of one node.
fn set_status(dag: &mut DAG, index: usize, status: NodeStatus)
    requires
        index < old(dag)@.nodes.len(),
    ensures
        final(dag)@ == (DAGView {
            nodes: with_status(old(dag)@.nodes, index as int, status),
            ..old(dag)@
        }),
{
    let ghost before = dag@.nodes;
    dag.nodes[index].status = status;
    assert(dag@.nodes =~= with_status(before, index as int, status));
}

impl<S> Wave<S> {
    /// Whether the members are nodes of the DAG.
    pub open spec fn wf(self) -> bool {
        are_nodes(self.members@, self.run.dag@.nodes)
    }

    /// Adds what is known of a node that ended.
    fn add(
        &mut self,
        name: &str,
        timing: TaskTiming,
        cost_eur: Option<Eur>,
        status: SpanStatus,
        error: Option<SpanError>,
        meta: NodeMeta,
    )
        ensures
            report_list(final(self).reports@) == report_list(old(self).reports@).push(
                wave_report(
                    old(self).run,
                    name@,
                    timing,
                    cost_eur,
                    status,
                    span_error_option(error),
                    meta@,
                ),
            ),
            *final(self) == (Wave { reports: final(self).reports, ..*old(self) }),
    {
        let report = NodeReport {
            thread_id: self.run.thread_id.clone(),
            node_name: name.to_owned(),
            dag_id: Some(id_text(self.run.dag.id)),
            attempt: timing.attempt,
            started_at: timing.started_at,
            duration_ms: timing.duration_ms,
            cost_eur,
            status,
            error,
            meta,
        };
        let ghost before = report_list(self.reports@);
        self.reports.push(report);
        assert(report_list(self.reports@) =~= before.push(report@));
    }

    /// Takes the result of a node that succeeded.
    pub fn collect<N, D, C>(
        self,
        index: usize,
        output: NodeOutput<S>,
        timing: TaskTiming,
        graph: &Graph<N, D, C>,
    ) -> (after: Collected<S>)
        requires
            index < self.run.dag@.nodes.len(),
        ensures
            is_collected(graph@, self, index, output, timing, after),
            self.wf() ==> (after matches Collected::Continue(wave) ==> wave.wf()),
    {
        let mut wave = self;
        let name = wave.run.dag.nodes[index].step_type.clone();
        let cost = output.meta.cost_eur;
        let config = graph.effective_config(name.as_str());
        match config.2 {
            Some(limit) => {
                let own = or_zero(cost);
                if own.exceeds(&limit) {
                    wave.add(
                        name.as_str(),
                        timing,
                        Some(own),
                        SpanStatus::Error,
                        Some(SpanError::Budget { spent_eur: own, limit_eur: limit }),
                        NodeMeta::default(),
                    );
                    let effects = report_effects(&wave.reports, &None);
                    return Collected::Failed {
                        failure: DagFailure {
                            error: TakelnError::BudgetExceeded { spent_eur: own, limit_eur: limit },
                            dag: wave.run.dag,
                        },
                        effects,
                    };
                }
            },
            None => {},
        }
        wave.add(name.as_str(), timing, cost, SpanStatus::Success, None, output.meta);
        set_status(&mut wave.run.dag, index, NodeStatus::Done);
        put_state(&mut wave.states, index, output.state);
        wave.succeeded.push(name);
        assert(text_list(wave.succeeded@) =~= text_list(self.succeeded@).push(name@));
        Collected::Continue(wave)
    }

    /// Takes the error of a node that did not succeed.
    pub fn collect_error<N, D, C>(
        self,
        index: usize,
        error: GraphError,
        timing: TaskTiming,
        graph: &Graph<N, D, C>,
    ) -> (after: Collected<S>)
        requires
            index < self.run.dag@.nodes.len(),
        ensures
            is_collected_error(graph@, self, index, error@, timing, after),
            self.wf() ==> (after matches Collected::Continue(wave) ==> wave.wf()),
    {
        let mut wave = self;
        let name = wave.run.dag.nodes[index].step_type.clone();
        let status = match &error {
            GraphError::Yield(_) => SpanStatus::Cancelled,
            _ => SpanStatus::Error,
        };
        wave.add(
            name.as_str(),
            timing,
            error_cost_of(&error),
            status,
            Some(span_error_of(&error)),
            NodeMeta::default(),
        );
        match error {
            GraphError::Yield(request) => {
                set_status(&mut wave.run.dag, index, NodeStatus::Yielded);
                wave.yielded = Some(request);
                return Collected::Continue(wave);
            },
            GraphError::BudgetExceeded { spent_eur, limit_eur } => {
                set_status(&mut wave.run.dag, index, NodeStatus::Failed);
                let effects = report_effects(&wave.reports, &None);
                return Collected::Failed {
                    failure: DagFailure {
                        error: TakelnError::BudgetExceeded { spent_eur, limit_eur },
                        dag: wave.run.dag,
                    },
                    effects,
                };
            },
            other => {
                set_status(&mut wave.run.dag, index, NodeStatus::Failed);
                let reason = other.message();
                match graph.wave_policy() {
                    WaveFailurePolicy::FailFast => {
                        let mut text = String::from_str("Node ");
                        text.append(name.as_str());
                        text.append(" failed: ");
                        text.append(reason.as_str());
                        let effects = report_effects(&wave.reports, &None);
                        Collected::Failed {
                            failure: DagFailure {
                                error: TakelnError::ExecutionError(text),
                                dag: wave.run.dag,
                            },
                            effects,
                        }
                    },
                    WaveFailurePolicy::ContinueOnError => {
                        wave.failed.push((name, reason));
                        assert(text_pairs(wave.failed@) =~= text_pairs(self.failed@).push(
                            (name@, reason@),
                        ));
                        Collected::Continue(wave)
                    },
                }
            },
        }
    }

    /// Ends the run after a task of the wave panicked.
    pub fn collect_panic(self, reason: String) -> (ended: (DagFailure, Vec<Effect>))
        ensures
            ended.0.error@ == TakelnErrorView::JoinError(reason@),
            ended.0.dag == self.run.dag,
            effect_list(ended.1@) == all_reported(report_list(self.reports@), None),
    {
        let effects = report_effects(&self.reports, &None);
        (DagFailure { error: TakelnError::JoinError(reason), dag: self.run.dag }, effects)
    }
}

/// The results without their indices.
pub open spec fn results<S>(states: Seq<(usize, S)>) -> Seq<S> {
    states.map_values(|entry: (usize, S)| entry.1)
}

/// Whether `after` is what follows a wave whose results are all in, after which
/// `spent` is what the run cost. Where a node yielded, what the others did is
/// merged all the same.
pub open spec fn is_settled<S: Merge, N, D, C>(
    graph: GraphView<N, D, C>,
    wave: Wave<S>,
    spent: Eur,
    after: Settled<S>,
) -> bool {
    let known = all_reported(report_list(wave.reports@), None);
    if wave.failed@.len() > 0 {
        after matches Settled::Failed { failure, effects } && failure.error@ == (
        TakelnErrorView::PartialWaveFailure {
            succeeded: text_list(wave.succeeded@),
            failed: text_pairs(wave.failed@),
        }) && failure.dag == wave.run.dag && effect_list(effects@) == known
    } else if wave.yielded is None && over(graph.budget_eur, spent) {
        after matches Settled::Failed { failure, effects } && failure.error@ == (
        TakelnErrorView::BudgetExceeded { spent_eur: spent, limit_eur: graph.budget_eur->0 })
            && failure.dag == wave.run.dag && effect_list(effects@) == known
    } else {
        after matches Settled::Merged(merged) && merged.run == (DagRun {
            state: merged.run.state,
            spent,
            ..wave.run
        }) && merged.members == wave.members && merged.yielded == wave.yielded && merged.reports
            == wave.reports && merged_all(
            wave.run.state,
            results(wave.states@),
            merged.run.state,
        )
    }
}

impl<S: Merge> Wave<S> {
    /// Takes that all nodes of the wave ended. `spent` is what the run has cost
    /// with this wave.
    pub fn settle<N, D, C>(self, spent: Eur, graph: &Graph<N, D, C>) -> (after: Settled<S>)
        ensures
            is_settled(graph@, self, spent, after),
            self.wf() ==> (after matches Settled::Merged(merged) ==> merged.wf()),
    {
        let wave = self;
        if wave.failed.len() > 0 {
            let effects = report_effects(&wave.reports, &None);
            return Settled::Failed {
                failure: DagFailure {
                    error: TakelnError::PartialWaveFailure {
                        succeeded: wave.succeeded,
                        failed: wave.failed,
                    },
                    dag: wave.run.dag,
                },
                effects,
            };
        }
        if wave.yielded.is_none() {
            match graph.budget() {
                Some(limit) => {
                    if spent.exceeds(&limit) {
                        let effects = report_effects(&wave.reports, &None);
                        return Settled::Failed {
                            failure: DagFailure {
                                error: TakelnError::BudgetExceeded {
                                    spent_eur: spent,
                                    limit_eur: limit,
                                },
                                dag: wave.run.dag,
                            },
                            effects,
                        };
                    }
                },
                None => {},
            }
        }
        let mut run = wave.run;
        merge_states(&mut run.state, wave.states);
        run.spent = spent;
        Settled::Merged(
            MergedWave {
                run,
                members: wave.members,
                yielded: wave.yielded,
                reports: wave.reports,
            },
        )
    }
}

/// Merges results into a state, one after the other.
fn merge_states<S: Merge>(state: &mut S, states: Vec<(usize, S)>)
    ensures
        merged_all(*old(state), results(states@), *final(state)),
{
    let ghost all = results(states@);
    let mut rest = states;
    let ghost mut done: int = 0;
    assert(all.take(0) =~= Seq::empty());
    while rest.len() > 0
        invariant
            0 <= done <= all.len(),
            results(rest@) == all.skip(done),
            rest@.len() == all.len() - done,
            merged_all(*old(state), all.take(done), *state),
        decreases rest@.len(),
    {
        let ghost before = rest@;
        let ghost between = *state;
        let entry = rest.remove(0);
        state.merge(entry.1);
        proof {
            assert(results(before)[0] == entry.1);
            assert(all.skip(done)[0] == all[done]);
            assert forall|i: int| 0 <= i < rest@.len() implies results(rest@)[i] == all.skip(
                done + 1,
            )[i] by {
                assert(rest@[i] == before[i + 1]);
                assert(results(before)[i + 1] == all.skip(done)[i + 1]);
            }
            assert(results(rest@) =~= all.skip(done + 1));
            lemma_merged_one_more(*old(state), all.take(done), between, entry.1, *state);
            assert(all.take(done + 1) =~= all.take(done).push(entry.1));
            done = done + 1;
        }
    }
    assert(all.take(all.len() as int) =~= all);
}

/// The node that the checkpoint of a wave names as the next one: the first that
/// is still pending, or the end.
pub open spec fn first_pending(nodes: Seq<DAGNodeView>) -> Seq<char> {
    if pending_names(nodes).len() > 0 {
        pending_names(nodes)[0]
    } else {
        end_name()
    }
}

/// What is saved after a wave: where a node yielded, the request and all that
/// is unfinished; otherwise the node that comes next, marked where the run stops
/// after a node of the wave.
pub open spec fn wave_save<S, N, D, C>(
    graph: GraphView<N, D, C>,
    merged: MergedWave<S>,
) -> SaveRequestView {
    let nodes = merged.run.dag@.nodes;
    SaveRequestView {
        thread_id: merged.run.thread_id@,
        next_node: if merged.yielded is Some {
            joined(unfinished_names(nodes), ","@)
        } else {
            first_pending(nodes)
        },
        status: if merged.yielded is Some {
            CheckpointStatus::Yielded
        } else if merged.stops(graph) {
            CheckpointStatus::Interrupted
        } else {
            CheckpointStatus::Complete
        },
        yield_request: request_option(merged.yielded),
        claimed_interrupt: None,
        resolved_interrupt: None,
    }
}

/// Whether `after` is what follows the merged state of a wave, of a given size.
pub open spec fn is_checkpointed<S, N, D, C>(
    graph: GraphView<N, D, C>,
    merged: MergedWave<S>,
    state_bytes: usize,
    after: Checkpointed<S>,
) -> bool {
    if graph.fits(state_bytes) {
        after matches Checkpointed::Save { merged: sized, save } && sized == (MergedWave {
            run: DagRun { state_bytes, ..merged.run },
            ..merged
        }) && save@ == wave_save(graph, merged)
    } else {
        after matches Checkpointed::Failed { failure, effects } && failure.error@
            == graph.too_large(state_bytes) && failure.dag == merged.run.dag && effect_list(
            effects@,
        ) == all_reported(report_list(merged.reports@), None)
    }
}

/// Whether `after` is what follows the checkpoint of a wave, with `n` as the
/// number of the next event.
pub open spec fn is_wave_saved<S, N, D, C>(
    graph: GraphView<N, D, C>,
    merged: MergedWave<S>,
    checkpoint_id: Seq<char>,
    n: u64,
    after: AfterWave<S>,
) -> bool {
    let thread = merged.run.thread_id@;
    let known = seq![checkpoint_saved(thread, checkpoint_id)] + all_reported(
        report_list(merged.reports@),
        Some(checkpoint_id),
    );
    if merged.yielded is Some {
        after matches AfterWave::Finished { state, dag, effects } && state == merged.run.state
            && dag == merged.run.dag && effect_list(effects@) == known
    } else if merged.stops(graph) {
        after matches AfterWave::Finished { state, dag, effects } && state == merged.run.state
            && dag == merged.run.dag && effect_list(effects@) == known.push(
            graph_finished(thread, merged.run.spent, n),
        )
    } else {
        after matches AfterWave::Continue { run, effects } && run == merged.run && effect_list(
            effects@,
        ) == known
    }
}

impl<S> MergedWave<S> {
    /// Whether the members are nodes of the DAG.
    pub open spec fn wf(self) -> bool {
        are_nodes(self.members@, self.run.dag@.nodes)
    }

    /// Whether the run stops after a node of the wave.
    pub open spec fn stops<N, D, C>(self, graph: GraphView<N, D, C>) -> bool {
        any_in(
            names_at(self.run.dag@.nodes, as_indices(self.members@)),
            graph.interrupt_after,
        )
    }

    /// Takes the size of the merged state and says what to save.
    pub fn checkpoint<N, D, C>(self, state_bytes: usize, graph: &Graph<N, D, C>) -> (after:
        Checkpointed<S>)
        requires
            self.wf(),
        ensures
            is_checkpointed(graph@, self, state_bytes, after),
            after matches Checkpointed::Save { merged, .. } ==> merged.wf(),
    {
        match graph.check_checkpoint_size(state_bytes) {
            Err(error) => {
                let effects = report_effects(&self.reports, &None);
                return Checkpointed::Failed {
                    failure: DagFailure { error, dag: self.run.dag },
                    effects,
                };
            },
            Ok(()) => {},
        }
        let mut next_node = "__END__".to_owned();
        let mut status = CheckpointStatus::Complete;
        if self.yielded.is_some() {
            let names = waiting_names(&self.run.dag.nodes, true);
            next_node = join(&names, ",");
            status = CheckpointStatus::Yielded;
        } else {
            let mut names = waiting_names(&self.run.dag.nodes, false);
            assert(text_list(names@).len() == names@.len());
            if names.len() > 0 {
                assert(text_list(names@)[0] == names@[0]@);
                next_node = names.remove(0);
            }
            let done = collect_names(&self.run.dag.nodes, &self.members);
            if any_interrupt(graph, &done, false) {
                status = CheckpointStatus::Interrupted;
            }
        }
        let save = SaveRequest {
            thread_id: self.run.thread_id.clone(),
            next_node,
            status,
            yield_request: copy_request(&self.yielded),
            claimed_interrupt: None,
            resolved_interrupt: None,
        };
        let merged = MergedWave { run: DagRun { state_bytes, ..self.run }, ..self };
        Checkpointed::Save { merged, save }
    }

    /// Takes back that the checkpoint of the wave was saved.
    pub fn saved<N, D, C>(
        self,
        checkpoint_id: String,
        graph: &Graph<N, D, C>,
        events: &mut EventSequence,
    ) -> (after: AfterWave<S>)
        requires
            self.wf(),
        ensures
            is_wave_saved(graph@, self, checkpoint_id@, old(events).next, after),
            final(events).next == if self.yielded is None && self.stops(graph@) {
                number_after(old(events).next)
            } else {
                old(events).next
            },
    {
        let mut effects = one_effect(
            saved_effect(self.run.thread_id.as_str(), checkpoint_id.as_str()),
        );
        add_reports(&mut effects, &self.reports, &Some(checkpoint_id));
        if self.yielded.is_some() {
            return AfterWave::Finished { state: self.run.state, dag: self.run.dag, effects };
        }
        let names = collect_names(&self.run.dag.nodes, &self.members);
        if any_interrupt(graph, &names, false) {
            let number: u64 = events.next_seq();
            add_effect(
                &mut effects,
                graph_finished_effect(self.run.thread_id.as_str(), self.run.spent, number),
            );
            return AfterWave::Finished { state: self.run.state, dag: self.run.dag, effects };
        }
        AfterWave::Continue { run: self.run, effects }
    }

    /// Takes back that the checkpoint of the wave could not be saved.
    pub fn not_saved(&self) -> (effects: Vec<Effect>)
        ensures
            effect_list(effects@) == all_reported(report_list(self.reports@), None),
    {
        report_effects(&self.reports, &None)
    }
}

} // verus!
