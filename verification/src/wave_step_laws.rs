//! What a DAG run owes at each of its phases, in terms of the graph, the nodes
//! of the DAG and the results that come back.
use crate::checkpoint_meta::CheckpointStatus;
use crate::clock::{duration_ms, Timestamp};
use crate::dag::{DAGNodeView, NodeStatus, DAG};
use crate::effects::{
    all_reported, effect_list, report_list, reported, EffectView, NodeReportView,
};
use crate::emitter::{SpanErrorView, SpanStatus};
use crate::error::{GraphErrorView, TakelnErrorView};
use crate::graph::{Graph, GraphEventView, GraphView, NodeOutput, WaveFailurePolicy};
use crate::identity::hyphenated;
use crate::merge::{merged_all, Merge};
use crate::money::Eur;
use crate::readiness::{
    any_in, as_indices, is_done, is_ready, lemma_ready_below, names_at, ready_wave,
    waiting_below,
};
use crate::tasks::{is_task_failure, AfterTaskFailure, TaskCall, TaskTiming};
use crate::text::{joined, text_list, text_pairs};
use crate::waves::{
    is_checkpointed, is_collected, is_collected_error, is_next_wave, is_settled, is_task,
    is_wave_saved, put, results, AfterWave, Checkpointed, Collected, DagFailure, DagRun, MergedWave,
    NextWave, Settled, Wave,
};
use vstd::prelude::*;

verus! {

/// A node that is in the next wave is pending, and what it depends on is done.
proof fn lemma_in_wave_is_free(nodes: Seq<DAGNodeView>, i: int)
    requires
        0 <= i < nodes.len(),
        ready_wave(nodes).contains(i),
    ensures
        nodes[i].status == NodeStatus::Pending,
        forall|k: int|
            #![trigger nodes[i].depends_on[k]]
            0 <= k < nodes[i].depends_on.len() ==> exists|j: int|
                0 <= j < nodes.len() && (#[trigger] nodes[j]).id == nodes[i].depends_on[k]
                    && nodes[j].status == NodeStatus::Done,
{
    lemma_ready_below(nodes, nodes.len());
    let wave = ready_wave(nodes);
    let at = wave.index_of(i);
    assert(wave[at] == i);
    assert(is_ready(nodes, wave[at]));
    assert forall|k: int|
        #![trigger nodes[i].depends_on[k]]
        0 <= k < nodes[i].depends_on.len() implies exists|j: int|
        0 <= j < nodes.len() && (#[trigger] nodes[j]).id == nodes[i].depends_on[k]
            && nodes[j].status == NodeStatus::Done by {
        assert(is_done(nodes, nodes[i].depends_on[k]));
    }
}

/// A pending node that depends on nothing that is not done is in the next wave.
proof fn lemma_free_is_in_wave(nodes: Seq<DAGNodeView>, i: int)
    requires
        0 <= i < nodes.len(),
        nodes[i].status == NodeStatus::Pending,
        forall|k: int|
            #![trigger nodes[i].depends_on[k]]
            0 <= k < nodes[i].depends_on.len() ==> exists|j: int|
                0 <= j < nodes.len() && (#[trigger] nodes[j]).id == nodes[i].depends_on[k]
                    && nodes[j].status == NodeStatus::Done,
    ensures
        ready_wave(nodes).contains(i),
{
    lemma_ready_below(nodes, nodes.len());
    assert forall|k: int| 0 <= k < nodes[i].depends_on.len() implies is_done(
        nodes,
        #[trigger] nodes[i].depends_on[k],
    ) by {
        let d = nodes[i].depends_on[k];
        let j = choose|j: int|
            0 <= j < nodes.len() && (#[trigger] nodes[j]).id == d && nodes[j].status
                == NodeStatus::Done;
        assert(nodes[j].id == d);
    }
    assert(is_ready(nodes, i));
}

/// A wave launches exactly the nodes that are pending and depend on nothing that
/// is not done, each once and in the order of the DAG; it marks them as running
/// and leaves every other node as it is.
pub proof fn law_waves_launch_what_is_ready<S, N, D, C>(
    graph: GraphView<N, D, C>,
    run: DagRun<S>,
    n: u64,
    next: NextWave<S>,
    i: int,
)
    requires
        is_next_wave(graph, run, n, next),
        next is Launch,
        0 <= i < run.dag@.nodes.len(),
    ensures
        ({
            let nodes = run.dag@.nodes;
            let wave = next->Launch_wave;
            let tasks = next->Launch_tasks@;
            let ready = nodes[i].status == NodeStatus::Pending && forall|k: int|
                #![trigger nodes[i].depends_on[k]]
                0 <= k < nodes[i].depends_on.len() ==> exists|j: int|
                    0 <= j < nodes.len() && (#[trigger] nodes[j]).id
                        == nodes[i].depends_on[k] && nodes[j].status
                        == NodeStatus::Done;
            &&& ready <==> exists|t: int| 0 <= t < tasks.len() && (#[trigger] tasks[t]).index == i
            &&& wave.run.dag@.nodes.len() == nodes.len()
            &&& ready ==> wave.run.dag@.nodes[i] == (DAGNodeView {
                status: NodeStatus::Running,
                ..nodes[i]
            })
            &&& !ready ==> wave.run.dag@.nodes[i] == nodes[i]
            &&& forall|a: int, b: int|
                0 <= a < b < tasks.len() ==> (#[trigger] tasks[a]).index < (
                #[trigger] tasks[b]).index
            &&& forall|t: int| 0 <= t < tasks.len() ==> (#[trigger] tasks[t]).index < nodes.len()
            &&& wave.members@.len() == tasks.len()
            &&& forall|t: int|
                0 <= t < tasks.len() ==> (#[trigger] tasks[t]).index == wave.members@[t]
            &&& wave.run.state == run.state
            &&& wave.run.thread_id == run.thread_id
            &&& wave.run.spent == run.spent
            &&& wave.run.dag@.id == run.dag@.id
            &&& wave.states@.len() == 0
            &&& wave.failed@.len() == 0
            &&& wave.succeeded@.len() == 0
            &&& wave.yielded is None
            &&& wave.reports@.len() == 0
        }),
{
    let nodes = run.dag@.nodes;
    let ready = ready_wave(nodes);
    let wave = next->Launch_wave;
    let tasks = next->Launch_tasks@;
    lemma_ready_below(nodes, nodes.len());
    let free = nodes[i].status == NodeStatus::Pending && forall|k: int|
        #![trigger nodes[i].depends_on[k]]
        0 <= k < nodes[i].depends_on.len() ==> exists|j: int|
            0 <= j < nodes.len() && (#[trigger] nodes[j]).id == nodes[i].depends_on[k]
                && nodes[j].status == NodeStatus::Done;
    if ready.contains(i) {
        lemma_in_wave_is_free(nodes, i);
        assert(free);
    }
    if free {
        lemma_free_is_in_wave(nodes, i);
    }
    assert(as_indices(wave.members@).len() == wave.members@.len());
    assert forall|t: int| 0 <= t < tasks.len() implies (#[trigger] tasks[t]).index == ready[t]
        && tasks[t].index == wave.members@[t] && tasks[t].index < nodes.len() by {
        assert(is_task(graph, run.thread_id@, run.dag@, ready[t], tasks[t]));
        assert(as_indices(wave.members@)[t] == wave.members@[t] as int);
    }
    assert forall|a: int, b: int| 0 <= a < b < tasks.len() implies (#[trigger] tasks[a]).index < (
    #[trigger] tasks[b]).index by {
        assert(ready[a] < ready[b]);
    }
    if ready.contains(i) {
        let t = ready.index_of(i);
        assert(tasks[t].index == i);
        assert(is_ready(nodes, ready[t]));
    }
    if exists|t: int| 0 <= t < tasks.len() && (#[trigger] tasks[t]).index == i {
        let t = choose|t: int| 0 <= t < tasks.len() && (#[trigger] tasks[t]).index == i;
        assert(ready[t] == i);
    }
    if is_ready(nodes, i) {
        assert(ready.contains(i));
    }
}

/// A task of a wave is that of its node: it has the name of the node and the
/// identifier of the DAG, and runs under the configuration of the node where it
/// has one and that of the graph where it has none.
pub proof fn law_tasks_are_those_of_their_nodes<S, N, D, C>(
    graph: GraphView<N, D, C>,
    run: DagRun<S>,
    n: u64,
    next: NextWave<S>,
    t: int,
)
    requires
        is_next_wave(graph, run, n, next),
        next is Launch,
        0 <= t < next->Launch_tasks@.len(),
    ensures
        ({
            let task = next->Launch_tasks@[t];
            let name = run.dag@.nodes[task.index as int].step_type;
            &&& task.node_name@ == name
            &&& task.thread_id@ == run.thread_id@
            &&& task.dag_id@ == hyphenated(run.dag@.id)
            &&& task.dynamic <==> graph.dynamic_nodes.contains_key(name)
            &&& graph.nodes.contains_key(name) || graph.dynamic_nodes.contains_key(name)
            &&& graph.node_configs.contains_key(name) && graph.node_configs[name].retry_policy is Some
                ==> task.retry == graph.node_configs[name].retry_policy->0
            &&& !graph.node_configs.contains_key(name)
                || graph.node_configs[name].retry_policy is None ==> task.retry
                == graph.retry_policy
            &&& graph.node_configs.contains_key(name) ==> task.timeout
                == graph.node_configs[name].timeout
            &&& !graph.node_configs.contains_key(name) ==> task.timeout is None
        }),
{
    let nodes = run.dag@.nodes;
    let ready = ready_wave(nodes);
    assert(is_task(graph, run.thread_id@, run.dag@, ready[t], next->Launch_tasks@[t]));
    let names = names_at(nodes, ready);
    assert(names[t] == nodes[ready[t]].step_type);
    assert(graph.registered(names[t]));
}

/// A wave other than the first is not launched where any of its nodes, wherever
/// it stands in the wave, has an interrupt before it: the run saves where it
/// stands and pauses, or fails where the state is too large to be saved.
pub proof fn law_interrupt_before_stops_the_wave<S, N, D, C>(
    graph: GraphView<N, D, C>,
    run: DagRun<S>,
    n: u64,
    next: NextWave<S>,
    i: int,
)
    requires
        is_next_wave(graph, run, n, next),
        run.entered,
        0 <= i < run.dag@.nodes.len(),
        run.dag@.nodes[i].status == NodeStatus::Pending,
        forall|k: int|
            #![trigger run.dag@.nodes[i].depends_on[k]]
            0 <= k < run.dag@.nodes[i].depends_on.len() ==> exists|j: int|
                0 <= j < run.dag@.nodes.len() && (#[trigger] run.dag@.nodes[j]).id
                    == run.dag@.nodes[i].depends_on[k] && run.dag@.nodes[j].status
                    == NodeStatus::Done,
        graph.interrupt_before.contains(run.dag@.nodes[i].step_type),
    ensures
        !(next is Launch),
        !(next is Finished),
        run.state_bytes <= graph.resource_limits.max_checkpoint_bytes ==> next is Paused,
        run.state_bytes > graph.resource_limits.max_checkpoint_bytes ==> next is Failed,
        next matches NextWave::Paused { run: paused, save } ==> paused == run && save@.thread_id
            == run.thread_id@ && save@.status == CheckpointStatus::Interrupted
            && save@.yield_request is None,
{
    let nodes = run.dag@.nodes;
    let ready = ready_wave(nodes);
    lemma_free_is_in_wave(nodes, i);
    let at = ready.index_of(i);
    assert(names_at(nodes, ready)[at] == nodes[i].step_type);
}

/// A wave pauses only where it is not the first of the run and one of its nodes
/// has an interrupt before it.
pub proof fn law_waves_pause_only_at_interrupts<S, N, D, C>(
    graph: GraphView<N, D, C>,
    run: DagRun<S>,
    n: u64,
    next: NextWave<S>,
)
    requires
        is_next_wave(graph, run, n, next),
        next is Paused,
    ensures
        run.entered,
        exists|i: int|
            0 <= i < run.dag@.nodes.len() && (#[trigger] run.dag@.nodes[i]).status
                == NodeStatus::Pending && graph.interrupt_before.contains(
                run.dag@.nodes[i].step_type,
            ),
{
    let nodes = run.dag@.nodes;
    let ready = ready_wave(nodes);
    let names = names_at(nodes, ready);
    lemma_ready_below(nodes, nodes.len());
    let k = choose|k: int|
        0 <= k < names.len() && graph.interrupt_before.contains(#[trigger] names[k]);
    assert(is_ready(nodes, ready[k]));
    assert(nodes[ready[k]].status == NodeStatus::Pending);
}

/// A wave is launched where some node can run, none that can run is unknown, and
/// none has an interrupt before it or the wave is the first of the run.
pub proof fn law_waves_are_launched<S, N, D, C>(
    graph: GraphView<N, D, C>,
    run: DagRun<S>,
    n: u64,
    next: NextWave<S>,
    i: int,
)
    requires
        is_next_wave(graph, run, n, next),
        0 <= i < run.dag@.nodes.len(),
        run.dag@.nodes[i].status == NodeStatus::Pending,
        forall|k: int|
            #![trigger run.dag@.nodes[i].depends_on[k]]
            0 <= k < run.dag@.nodes[i].depends_on.len() ==> exists|j: int|
                0 <= j < run.dag@.nodes.len() && (#[trigger] run.dag@.nodes[j]).id
                    == run.dag@.nodes[i].depends_on[k] && run.dag@.nodes[j].status
                    == NodeStatus::Done,
        forall|m: int|
            0 <= m < run.dag@.nodes.len() && (#[trigger] run.dag@.nodes[m]).status
                == NodeStatus::Pending ==> (graph.nodes.contains_key(run.dag@.nodes[m].step_type)
                || graph.dynamic_nodes.contains_key(run.dag@.nodes[m].step_type)) && (!run.entered
                || !graph.interrupt_before.contains(run.dag@.nodes[m].step_type)),
    ensures
        next is Launch,
{
    let nodes = run.dag@.nodes;
    let ready = ready_wave(nodes);
    let names = names_at(nodes, ready);
    lemma_free_is_in_wave(nodes, i);
    lemma_ready_below(nodes, nodes.len());
    assert forall|k: int| 0 <= k < names.len() implies graph.registered(#[trigger] names[k]) && (
    !run.entered || !graph.interrupt_before.contains(names[k])) by {
        assert(is_ready(nodes, ready[k]));
        assert(nodes[ready[k]].status == NodeStatus::Pending);
    }
}

/// A run in which no node can run is told that it deadlocked where a node is
/// still pending, and finishes with the state it has where none is.
pub proof fn law_runs_end_when_nothing_can_run<S, N, D, C>(
    graph: GraphView<N, D, C>,
    run: DagRun<S>,
    n: u64,
    next: NextWave<S>,
)
    requires
        is_next_wave(graph, run, n, next),
    ensures
        next matches NextWave::Finished { state, dag, .. } ==> {
            &&& state == run.state
            &&& dag == run.dag
            &&& forall|i: int|
                0 <= i < run.dag@.nodes.len() ==> (#[trigger] run.dag@.nodes[i]).status
                    != NodeStatus::Pending
        },
        (forall|i: int|
            0 <= i < run.dag@.nodes.len() ==> (#[trigger] run.dag@.nodes[i]).status
                != NodeStatus::Pending) ==> next is Finished,
        next is Failed && next->Failed_0.error@ is DAGDeadlock ==> {
            &&& next->Failed_0.dag == run.dag
            &&& exists|i: int|
                0 <= i < run.dag@.nodes.len() && (#[trigger] run.dag@.nodes[i]).status
                    == NodeStatus::Pending
        },
        next is Failed && next->Failed_0.error@ is NodeNotFound ==> exists|i: int|
            0 <= i < run.dag@.nodes.len() && (#[trigger] run.dag@.nodes[i]).step_type
                == next->Failed_0.error@->NodeNotFound_0 && !graph.nodes.contains_key(
                run.dag@.nodes[i].step_type,
            ) && !graph.dynamic_nodes.contains_key(run.dag@.nodes[i].step_type),
{
    let nodes = run.dag@.nodes;
    let ready = ready_wave(nodes);
    let names = names_at(nodes, ready);
    lemma_ready_below(nodes, nodes.len());
    lemma_some_waits(nodes, nodes.len());
    if forall|i: int| 0 <= i < nodes.len() ==> (#[trigger] nodes[i]).status != NodeStatus::Pending {
        if ready.len() > 0 {
            assert(is_ready(nodes, ready[0]));
        }
    }
    if next is Failed && next->Failed_0.error@ is NodeNotFound {
        let k = choose|k: int|
            0 <= k < names.len() && !graph.registered(#[trigger] names[k])
                && next->Failed_0.error@ == TakelnErrorView::NodeNotFound(names[k]);
        assert(is_ready(nodes, ready[k]));
        assert(nodes[ready[k]].step_type == names[k]);
    }
}

/// Where a run is told that it deadlocked, every pending node waits for a node
/// that is not done.
pub proof fn law_deadlocks_are_real<S, N, D, C>(
    graph: GraphView<N, D, C>,
    run: DagRun<S>,
    n: u64,
    next: NextWave<S>,
    i: int,
)
    requires
        is_next_wave(graph, run, n, next),
        next is Failed,
        next->Failed_0.error@ is DAGDeadlock,
        0 <= i < run.dag@.nodes.len(),
        run.dag@.nodes[i].status == NodeStatus::Pending,
    ensures
        exists|k: int|
            #![trigger run.dag@.nodes[i].depends_on[k]]
            0 <= k < run.dag@.nodes[i].depends_on.len() && forall|j: int|
                0 <= j < run.dag@.nodes.len() && (#[trigger] run.dag@.nodes[j]).id
                    == run.dag@.nodes[i].depends_on[k] ==> run.dag@.nodes[j].status
                    != NodeStatus::Done,
{
    let nodes = run.dag@.nodes;
    lemma_ready_below(nodes, nodes.len());
    if is_ready(nodes, i) {
        assert(ready_wave(nodes).contains(i));
    }
    let k = choose|k: int|
        0 <= k < nodes[i].depends_on.len() && !is_done(nodes, #[trigger] nodes[i].depends_on[k]);
    assert forall|j: int|
        0 <= j < nodes.len() && (#[trigger] nodes[j]).id
            == nodes[i].depends_on[k] implies nodes[j].status != NodeStatus::Done by {
        if nodes[j].status == NodeStatus::Done {
            assert(is_done(nodes, nodes[i].depends_on[k]));
        }
    }
}

/// Some name waits exactly where some node is pending.
proof fn lemma_some_waits(nodes: Seq<DAGNodeView>, n: nat)
    requires
        n <= nodes.len(),
    ensures
        waiting_below(nodes, n, false).len() > 0 <==> exists|i: int|
            0 <= i < n && (#[trigger] nodes[i]).status == NodeStatus::Pending,
    decreases n,
{
    if n > 0 {
        lemma_some_waits(nodes, (n - 1) as nat);
        if nodes[n - 1].status == NodeStatus::Pending {
        } else if exists|i: int| 0 <= i < n && (#[trigger] nodes[i]).status == NodeStatus::Pending {
            let i = choose|i: int|
                0 <= i < n && (#[trigger] nodes[i]).status == NodeStatus::Pending;
            assert(0 <= i < n - 1);
        }
    }
}

/// A DAG is run unless it is nested deeper than eight levels or has more nodes
/// than the limit allows.
pub proof fn law_dags_are_started<S, N, D, C>(
    graph: &Graph<N, D, C>,
    thread_id: &str,
    dag: DAG,
    state: S,
    state_bytes: usize,
    depth: u8,
    started: Result<DagRun<S>, DagFailure>,
)
    requires
        call_ensures(
            DagRun::<S>::start::<N, D, C>,
            (graph, thread_id, dag, state, state_bytes, depth),
            started,
        ),
    ensures
        started is Ok <==> depth <= 8 && dag@.nodes.len() <= graph@.resource_limits.max_dag_nodes,
        started matches Ok(run) ==> run.state == state && run.dag == dag && run.thread_id@
            == thread_id@ && run.state_bytes == state_bytes && !run.entered && run.spent.bits == 0,
        started matches Err(failure) ==> failure.dag == dag,
        depth > 8 ==> started->Err_0.error@ == (TakelnErrorView::RecursionLimitExceeded {
            depth,
            limit: 8,
        }),
{
}

/// A result that arrives within the budget of its node is taken: the node is
/// done, every other node stays as it is, and the result joins those that
/// arrived before.
pub proof fn law_results_are_taken<S, N, D, C>(
    graph: GraphView<N, D, C>,
    wave: Wave<S>,
    index: usize,
    output: NodeOutput<S>,
    timing: TaskTiming,
    after: Collected<S>,
)
    requires
        is_collected(graph, wave, index, output, timing, after),
        index < wave.run.dag@.nodes.len(),
    ensures
        ({
            let nodes = wave.run.dag@.nodes;
            let name = nodes[index as int].step_type;
            let cost = match output.meta.cost_eur {
                Some(cost) => cost,
                None => Eur { bits: 0 },
            };
            let too_much = graph.node_configs.contains_key(name)
                && graph.node_configs[name].budget_eur is Some && cost.above(
                graph.node_configs[name].budget_eur->0,
            );
            &&& after is Failed <==> too_much
            &&& too_much ==> after->Failed_failure.error@ == (TakelnErrorView::BudgetExceeded {
                spent_eur: cost,
                limit_eur: graph.node_configs[name].budget_eur->0,
            })
            &&& after matches Collected::Continue(next) ==> {
                &&& next.run.dag@.nodes.len() == nodes.len()
                &&& next.run.dag@.nodes[index as int] == (DAGNodeView {
                    status: NodeStatus::Done,
                    ..nodes[index as int]
                })
                &&& forall|j: int|
                    0 <= j < nodes.len() && j != index ==> (#[trigger] next.run.dag@.nodes[j])
                        == nodes[j]
                &&& next.run.state == wave.run.state
                &&& next.run.spent == wave.run.spent
                &&& next.members == wave.members
                &&& next.failed == wave.failed
                &&& next.yielded == wave.yielded
                &&& next.states@.to_multiset() == wave.states@.to_multiset().insert(
                    (index, output.state),
                )
                &&& next.succeeded@.len() == wave.succeeded@.len() + 1
                &&& next.succeeded@.last()@ == name
            }
        }),
{
    lemma_put_adds(wave.states@, index, output.state);
    if after is Continue {
        let next = after->Continue_0;
        let was = text_list(wave.succeeded@);
        let is = text_list(next.succeeded@);
        assert(is.len() == next.succeeded@.len());
        assert(is[is.len() - 1] == next.succeeded@[next.succeeded@.len() - 1]@);
    }
}

proof fn lemma_put_adds<S>(states: Seq<(usize, S)>, index: usize, state: S)
    ensures
        put(states, index, state).to_multiset() == states.to_multiset().insert((index, state)),
    decreases states.len(),
{
    broadcast use vstd::seq_lib::group_to_multiset_ensures;

    if states.len() == 0 || states.last().0 <= index {
    } else {
        let rest = states.drop_last();
        lemma_put_adds(rest, index, state);
        assert(states =~= rest.push(states.last()));
        assert(put(states, index, state).to_multiset() =~= states.to_multiset().insert(
            (index, state),
        ));
    }
}

/// A node of a wave that yields or fails is marked as such and no other node is;
/// a yield keeps the wave going, an exceeded budget ends it, and any other error
/// does as the policy says.
pub proof fn law_errors_follow_the_policy<S, N, D, C>(
    graph: GraphView<N, D, C>,
    wave: Wave<S>,
    index: usize,
    error: GraphErrorView,
    timing: TaskTiming,
    after: Collected<S>,
    status: NodeStatus,
)
    requires
        is_collected_error(graph, wave, index, error, timing, after),
        index < wave.run.dag@.nodes.len(),
        status == (if error is Yield {
            NodeStatus::Yielded
        } else {
            NodeStatus::Failed
        }),
    ensures
        ({
            let nodes = wave.run.dag@.nodes;
            let left = match after {
                Collected::Continue(next) => next.run.dag@.nodes,
                Collected::Failed { failure, .. } => failure.dag@.nodes,
            };
            &&& after is Continue <==> error is Yield || (!(error is BudgetExceeded)
                && graph.wave_failure_policy == WaveFailurePolicy::ContinueOnError)
            &&& left.len() == nodes.len()
            &&& left[index as int] == (DAGNodeView { status, ..nodes[index as int] })
            &&& forall|j: int|
                0 <= j < nodes.len() && j != index ==> (#[trigger] left[j]) == nodes[j]
            &&& error matches GraphErrorView::BudgetExceeded { spent_eur, limit_eur }
                ==> after->Failed_failure.error@ == (TakelnErrorView::BudgetExceeded {
                spent_eur,
                limit_eur,
            })
            &&& after is Failed && !(error is BudgetExceeded) ==> after->Failed_failure.error@ is ExecutionError
            &&& after matches Collected::Continue(next) ==> {
                &&& next.run.state == wave.run.state
                &&& next.states == wave.states
                &&& next.succeeded == wave.succeeded
                &&& next.members == wave.members
                &&& error matches GraphErrorView::Yield(request) ==> next.yielded is Some
                    && next.yielded->0@ == request && next.failed == wave.failed
                &&& !(error is Yield) ==> next.yielded == wave.yielded && next.failed@.len()
                    == wave.failed@.len() + 1 && next.failed@.last().0@
                    == nodes[index as int].step_type
            }
        }),
{
    if after is Continue && !(error is Yield) {
        let next = after->Continue_0;
        let is = text_pairs(next.failed@);
        assert(is.len() == next.failed@.len());
        assert(is[is.len() - 1].0 == next.failed@[next.failed@.len() - 1].0@);
    }
}

/// A wave in which a node failed ends with the names of those that succeeded and
/// failed; otherwise it is merged, unless no node yielded and what the run has
/// cost is strictly above the budget.
pub proof fn law_waves_are_merged<S: Merge, N, D, C>(
    graph: GraphView<N, D, C>,
    wave: Wave<S>,
    spent: Eur,
    after: Settled<S>,
)
    requires
        is_settled(graph, wave, spent, after),
    ensures
        after is Merged <==> wave.failed@.len() == 0 && (wave.yielded is Some
            || graph.budget_eur is None || !spent.above(graph.budget_eur->0)),
        after is Failed && after->Failed_failure.error@ is BudgetExceeded ==> {
            let error = after->Failed_failure.error@;
            &&& error->BudgetExceeded_spent_eur.above(error->BudgetExceeded_limit_eur)
            &&& error->BudgetExceeded_spent_eur == spent
            &&& graph.budget_eur == Some(error->BudgetExceeded_limit_eur)
        },
        wave.failed@.len() > 0 ==> after is Failed
            && after->Failed_failure.error@ is PartialWaveFailure,
        after matches Settled::Merged(merged) ==> merged.run.spent == spent && merged.run.dag
            == wave.run.dag && merged.members == wave.members && merged.yielded == wave.yielded
            && merged.run.thread_id == wave.run.thread_id && merged.run.entered
            == wave.run.entered,
        after matches Settled::Failed { failure, .. } ==> failure.dag == wave.run.dag,
{
}

/// The results of a wave are merged into the state one after the other, in the
/// order in which they are held: there are states in between that lead from the
/// state before the wave to the one after it.
pub proof fn law_results_are_merged_in_turn<S: Merge, N, D, C>(
    graph: GraphView<N, D, C>,
    wave: Wave<S>,
    spent: Eur,
    after: Settled<S>,
) -> (between: Seq<S>)
    requires
        is_settled(graph, wave, spent, after),
        after is Merged,
    ensures
        between.len() == wave.states@.len() + 1,
        between[0] == wave.run.state,
        between.last() == after->Merged_0.run.state,
        forall|k: int|
            0 <= k < wave.states@.len() ==> S::merged(
                #[trigger] between[k],
                wave.states@[k].1,
                between[k + 1],
            ),
{
    let all = results(wave.states@);
    let between = lemma_merged_in_turn(wave.run.state, all, after->Merged_0.run.state);
    assert forall|k: int| 0 <= k < wave.states@.len() implies S::merged(
        #[trigger] between[k],
        wave.states@[k].1,
        between[k + 1],
    ) by {
        assert(all[k] == wave.states@[k].1);
    }
    between
}

proof fn lemma_merged_in_turn<S: Merge>(before: S, others: Seq<S>, after: S) -> (between: Seq<S>)
    requires
        merged_all(before, others, after),
    ensures
        between.len() == others.len() + 1,
        between[0] == before,
        between.last() == after,
        forall|k: int|
            0 <= k < others.len() ==> S::merged(#[trigger] between[k], others[k], between[k + 1]),
    decreases others.len(),
{
    if others.len() == 0 {
        seq![before]
    } else {
        let rest = others.drop_last();
        let last = choose|last: S|
            merged_all(before, rest, last) && #[trigger] S::merged(last, others.last(), after);
        let fewer = lemma_merged_in_turn(before, rest, last);
        let between = fewer.push(after);
        assert forall|k: int| 0 <= k < others.len() implies S::merged(
            #[trigger] between[k],
            others[k],
            between[k + 1],
        ) by {
            if k < rest.len() {
                assert(between[k] == fewer[k] && between[k + 1] == fewer[k + 1]);
                assert(rest[k] == others[k]);
            } else {
                assert(between[k] == fewer.last());
            }
        }
        between
    }
}

/// The run ends after a wave where any of its members, wherever it stands in the
/// wave, has an interrupt after it, and what is saved says so; it ends as well
/// where a node yielded, and goes on otherwise.
pub proof fn law_interrupt_after_ends_the_run<S, N, D, C>(
    graph: GraphView<N, D, C>,
    merged: MergedWave<S>,
    state_bytes: usize,
    checkpointed: Checkpointed<S>,
    checkpoint_id: Seq<char>,
    n: u64,
    after: AfterWave<S>,
)
    requires
        merged.wf(),
        is_checkpointed(graph, merged, state_bytes, checkpointed),
        checkpointed matches Checkpointed::Save { merged: sized, .. } ==> is_wave_saved(
            graph,
            sized,
            checkpoint_id,
            n,
            after,
        ),
    ensures
        checkpointed is Save <==> state_bytes <= graph.resource_limits.max_checkpoint_bytes,
        checkpointed is Save ==> {
            let save = checkpointed->Save_save@;
            let hit = exists|m: int|
                0 <= m < merged.members@.len() && graph.interrupt_after.contains(
                    merged.run.dag@.nodes[#[trigger] merged.members@[m] as int].step_type,
                );
            &&& merged.yielded is Some ==> after is Finished && save.status
                == CheckpointStatus::Yielded && save.yield_request == Some(merged.yielded->0@)
            &&& merged.yielded is None && hit ==> after is Finished && save.status
                == CheckpointStatus::Interrupted
            &&& merged.yielded is None && !hit ==> after is Continue && save.status
                == CheckpointStatus::Complete
            &&& merged.yielded is None ==> save.yield_request is None
            &&& save.thread_id == merged.run.thread_id@
            &&& save.claimed_interrupt is None
            &&& save.resolved_interrupt is None
            &&& after matches AfterWave::Finished { state, dag, .. } ==> state == merged.run.state
                && dag == merged.run.dag
            &&& after matches AfterWave::Continue { run, .. } ==> run == (DagRun {
                state_bytes,
                ..merged.run
            })
        },
{
    if checkpointed is Save {
        let names = names_at(merged.run.dag@.nodes, as_indices(merged.members@));
        assert(names.len() == merged.members@.len());
        assert forall|m: int| 0 <= m < merged.members@.len() implies names[m]
            == merged.run.dag@.nodes[#[trigger] merged.members@[m] as int].step_type by {
            assert(as_indices(merged.members@)[m] == merged.members@[m] as int);
        }
        if exists|m: int|
            0 <= m < merged.members@.len() && graph.interrupt_after.contains(
                merged.run.dag@.nodes[#[trigger] merged.members@[m] as int].step_type,
            ) {
            let m = choose|m: int|
                0 <= m < merged.members@.len() && graph.interrupt_after.contains(
                    merged.run.dag@.nodes[#[trigger] merged.members@[m] as int].step_type,
                );
            assert(graph.interrupt_after.contains(names[m]));
        }
        if any_in(names, graph.interrupt_after) {
            let k = choose|k: int|
                0 <= k < names.len() && graph.interrupt_after.contains(#[trigger] names[k]);
            assert(graph.interrupt_after.contains(
                merged.run.dag@.nodes[merged.members@[k] as int].step_type,
            ));
        }
    }
}

/// What the checkpoint of a wave names as the next node: the first that is still
/// pending, and the end where none is.
pub proof fn law_waves_name_the_next_node<S, N, D, C>(
    graph: GraphView<N, D, C>,
    merged: MergedWave<S>,
    state_bytes: usize,
    checkpointed: Checkpointed<S>,
)
    requires
        is_checkpointed(graph, merged, state_bytes, checkpointed),
        checkpointed is Save,
        merged.yielded is None,
    ensures
        (forall|i: int|
            0 <= i < merged.run.dag@.nodes.len() ==> (#[trigger] merged.run.dag@.nodes[i]).status
                != NodeStatus::Pending) ==> checkpointed->Save_save@.next_node == "__END__"@,
        forall|i: int|
            0 <= i < merged.run.dag@.nodes.len() && (#[trigger] merged.run.dag@.nodes[i]).status
                == NodeStatus::Pending && (forall|j: int|
                0 <= j < i ==> (#[trigger] merged.run.dag@.nodes[j]).status != NodeStatus::Pending)
                ==> checkpointed->Save_save@.next_node == merged.run.dag@.nodes[i].step_type,
{
    let nodes = merged.run.dag@.nodes;
    lemma_some_waits(nodes, nodes.len());
    assert forall|i: int|
        0 <= i < nodes.len() && (#[trigger] nodes[i]).status == NodeStatus::Pending && (forall|
            j: int,
        |
            0 <= j < i ==> (#[trigger] nodes[j]).status
                != NodeStatus::Pending) implies checkpointed->Save_save@.next_node
        == nodes[i].step_type by {
        lemma_first_waiting(nodes, nodes.len(), i);
    }
}

proof fn lemma_first_waiting(nodes: Seq<DAGNodeView>, n: nat, i: int)
    requires
        0 <= i < n <= nodes.len(),
        nodes[i].status == NodeStatus::Pending,
        forall|j: int| 0 <= j < i ==> (#[trigger] nodes[j]).status != NodeStatus::Pending,
    ensures
        waiting_below(nodes, n, false).len() > 0,
        waiting_below(nodes, n, false)[0] == nodes[i].step_type,
    decreases n,
{
    if n - 1 > i {
        lemma_first_waiting(nodes, (n - 1) as nat, i);
    } else {
        lemma_some_waits(nodes, (n - 1) as nat);
    }
}

/// A regular node of a wave that fails retryably while attempts are left is
/// tried again, and no other failure is.
pub proof fn law_task_retry_is_owed(
    call: TaskCall,
    error: GraphErrorView,
    now: Timestamp,
    n: u64,
    after: AfterTaskFailure,
)
    requires
        is_task_failure(call, error, now, n, after),
    ensures
        after is Retry <==> !call.task.dynamic && error is Retryable && call.attempt + 1
            < call.task.retry.max_attempts,
        after matches AfterTaskFailure::Retry { call: again, .. } ==> again.attempt == call.attempt
            + 1 && again.task == call.task && again.started_at == call.started_at,
        after matches AfterTaskFailure::Settled { error: settled, timing, effects } ==> {
            &&& settled@ == error
            &&& timing.attempt == call.attempt
            &&& timing.started_at == call.started_at
            &&& timing.duration_ms == duration_ms(call.started_at, now)
            &&& effect_list(effects@) == seq![
                EffectView::Event(
                    GraphEventView::NodeFinished {
                        thread_id: call.task.thread_id@,
                        node_name: call.task.node_name@,
                        duration_ms: duration_ms(call.started_at, now),
                        status: if error is Yield {
                            "yielded"@
                        } else {
                            "failed"@
                        },
                        cost: None,
                        sequence_number: n,
                    },
                ),
            ]
        },
{
}

/// Whether each call of a task is a retry of the one before.
pub open spec fn are_task_retries(
    calls: Seq<TaskCall>,
    errors: Seq<GraphErrorView>,
    times: Seq<Timestamp>,
    numbers: Seq<u64>,
    results: Seq<AfterTaskFailure>,
) -> bool {
    &&& calls.len() == errors.len() + 1
    &&& forall|i: int|
        0 <= i < errors.len() ==> {
            &&& is_task_failure(
                calls[i],
                #[trigger] errors[i],
                times[i],
                numbers[i],
                results[i],
            )
            &&& results[i] is Retry
            &&& results[i]->Retry_call == calls[i + 1]
        }
}

/// A regular node of a wave that keeps failing retryably is called exactly as
/// often as its policy says, and once where the policy says less.
pub proof fn law_task_attempts_are_used_up(
    calls: Seq<TaskCall>,
    errors: Seq<GraphErrorView>,
    times: Seq<Timestamp>,
    numbers: Seq<u64>,
    results: Seq<AfterTaskFailure>,
    last_error: GraphErrorView,
    now: Timestamp,
    n: u64,
    after: AfterTaskFailure,
)
    requires
        are_task_retries(calls, errors, times, numbers, results),
        calls[0].attempt == 0,
        !calls.last().task.dynamic,
        last_error is Retryable,
        is_task_failure(calls.last(), last_error, now, n, after),
        !(after is Retry),
    ensures
        calls[0].task.retry.max_attempts >= 1 ==> calls.len() == calls[0].task.retry.max_attempts,
        calls[0].task.retry.max_attempts == 0 ==> calls.len() == 1,
{
    lemma_task_attempts(calls, errors, times, numbers, results, errors.len() as int);
    assert(calls.last() == calls[errors.len() as int]);
    law_task_retry_is_owed(calls.last(), last_error, now, n, after);
}

proof fn lemma_task_attempts(
    calls: Seq<TaskCall>,
    errors: Seq<GraphErrorView>,
    times: Seq<Timestamp>,
    numbers: Seq<u64>,
    results: Seq<AfterTaskFailure>,
    k: int,
)
    requires
        are_task_retries(calls, errors, times, numbers, results),
        calls[0].attempt == 0,
        0 <= k <= errors.len(),
    ensures
        calls[k].attempt == k,
        calls[k].task == calls[0].task,
        k > 0 ==> k < calls[0].task.retry.max_attempts,
    decreases k,
{
    if k > 0 {
        lemma_task_attempts(calls, errors, times, numbers, results, k - 1);
        assert(errors[k - 1] == errors[k - 1]);
        law_task_retry_is_owed(
            calls[k - 1],
            errors[k - 1],
            times[k - 1],
            numbers[k - 1],
            results[k - 1],
        );
    }
}

/// What a success or a failure of a wave node is reported with: its name, the
/// DAG, and the attempt and duration that its task took.
pub proof fn law_wave_nodes_are_reported<S, N, D, C>(
    graph: GraphView<N, D, C>,
    wave: Wave<S>,
    index: usize,
    output: NodeOutput<S>,
    timing: TaskTiming,
    after: Collected<S>,
)
    requires
        is_collected(graph, wave, index, output, timing, after),
        index < wave.run.dag@.nodes.len(),
        after is Continue,
    ensures
        ({
            let reports = report_list(after->Continue_0.reports@);
            let report = reports.last();
            &&& reports.drop_last() == report_list(wave.reports@)
            &&& report.node_name == wave.run.dag@.nodes[index as int].step_type
            &&& report.thread_id == wave.run.thread_id@
            &&& report.dag_id == Some(hyphenated(wave.run.dag@.id))
            &&& report.status == SpanStatus::Success
            &&& report.attempt == timing.attempt
            &&& report.started_at == timing.started_at
            &&& report.duration_ms == timing.duration_ms
            &&& report.cost_eur == output.meta.cost_eur
            &&& report.error is None
            &&& report.meta == output.meta@
        }),
{
    let reports = report_list(after->Continue_0.reports@);
    assert(reports.drop_last() =~= report_list(wave.reports@));
}

/// Once the checkpoint of a wave is saved it is made known first, and then every
/// report of the wave with that checkpoint: a span for each, a completion for
/// each that succeeded or failed, a record for each that succeeded.
pub proof fn law_saved_waves_are_reported<S, N, D, C>(
    graph: GraphView<N, D, C>,
    merged: MergedWave<S>,
    checkpoint_id: Seq<char>,
    n: u64,
    after: AfterWave<S>,
    effects: Seq<EffectView>,
    k: int,
)
    requires
        is_wave_saved(graph, merged, checkpoint_id, n, after),
        effects == (match after {
            AfterWave::Continue { effects, .. } => effect_list(effects@),
            AfterWave::Finished { effects, .. } => effect_list(effects@),
        }),
        0 <= k < merged.reports@.len(),
    ensures
        effects[0] == (EffectView::CheckpointSaved {
            thread_id: merged.run.thread_id@,
            checkpoint_id,
        }),
        exists|p: int|
            0 < p < effects.len() && #[trigger] effects[p] is Span && effects[p]->Span_0.node_name
                == merged.reports@[k].node_name@ && effects[p]->Span_0.checkpoint_id == Some(
                checkpoint_id,
            ) && effects[p]->Span_0.status == merged.reports@[k].status
                && effects[p]->Span_0.duration_ms == merged.reports@[k].duration_ms
                && effects[p]->Span_0.attempt == merged.reports@[k].attempt,
        merged.reports@[k].status == SpanStatus::Success || merged.reports@[k].status
            == SpanStatus::Error ==> effects.contains(
            EffectView::NodeComplete {
                node_name: merged.reports@[k].node_name@,
                duration_ms: merged.reports@[k].duration_ms,
                status: merged.reports@[k].status,
            },
        ),
{
    let reports = report_list(merged.reports@);
    let id = Some(checkpoint_id);
    let all = all_reported(reports, id);
    let report = reports[k];
    assert(report == merged.reports@[k]@);
    let at = lemma_report_is_among(reports, id, k);
    let part = reported(report, id);
    assert(effects[at + 1] == all[at]);
    assert(part[0] == all[at]);
    if report.status == SpanStatus::Success || report.status == SpanStatus::Error {
        assert(part[1] == all[at + 1]);
        assert(effects[at + 2] == all[at + 1]);
    }
}

/// Where the effects of a report begin.
proof fn lemma_report_is_among(
    reports: Seq<NodeReportView>,
    checkpoint: Option<Seq<char>>,
    k: int,
) -> (at: int)
    requires
        0 <= k < reports.len(),
    ensures
        0 <= at,
        at + reported(reports[k], checkpoint).len() <= all_reported(reports, checkpoint).len(),
        forall|p: int|
            0 <= p < reported(reports[k], checkpoint).len() ==> #[trigger] reported(
                reports[k],
                checkpoint,
            )[p] == all_reported(reports, checkpoint)[at + p],
    decreases reports.len(),
{
    let rest = reports.drop_last();
    let before = all_reported(rest, checkpoint);
    if k == reports.len() - 1 {
        before.len() as int
    } else {
        let at = lemma_report_is_among(rest, checkpoint, k);
        assert(rest[k] == reports[k]);
        assert forall|p: int| 0 <= p < reported(reports[k], checkpoint).len() implies
            #[trigger] reported(reports[k], checkpoint)[p] == all_reported(
            reports,
            checkpoint,
        )[at + p] by {
            assert(before[at + p] == all_reported(reports, checkpoint)[at + p]);
        }
        at
    }
}

/// Ascending lists with the same numbers are the same.
proof fn lemma_same_ascending(a: Seq<int>, b: Seq<int>)
    requires
        forall|p: int, q: int| 0 <= p < q < a.len() ==> #[trigger] a[p] < #[trigger] a[q],
        forall|p: int, q: int| 0 <= p < q < b.len() ==> #[trigger] b[p] < #[trigger] b[q],
        forall|v: int| #[trigger] a.contains(v) <==> b.contains(v),
    ensures
        a == b,
    decreases a.len(),
{
    if a.len() == 0 {
        if b.len() > 0 {
            assert(b.contains(b[0]));
            assert(a.contains(b[0]));
        }
        assert(a =~= b);
    } else {
        let x = a.last();
        assert(a[a.len() - 1] == x);
        assert(a.contains(x));
        assert(b.contains(x));
        let y = b.last();
        assert(b[b.len() - 1] == y);
        assert(b.contains(y));
        assert(a.contains(y));
        let p = b.index_of(x);
        let q = a.index_of(y);
        if p < b.len() - 1 {
            assert(b[p] < b[b.len() - 1]);
            if q < a.len() - 1 {
                assert(a[q] < a[a.len() - 1]);
            }
        }
        assert(x == y);
        let ra = a.drop_last();
        let rb = b.drop_last();
        assert forall|v: int| #[trigger] ra.contains(v) <==> rb.contains(v) by {
            if ra.contains(v) {
                let k = ra.index_of(v);
                assert(a[k] == v);
                assert(a[k] < a[a.len() - 1]);
                assert(a.contains(v));
                let m = b.index_of(v);
                assert(m < b.len() - 1);
                assert(rb[m] == v);
            }
            if rb.contains(v) {
                let k = rb.index_of(v);
                assert(b[k] == v);
                assert(b[k] < b[b.len() - 1]);
                assert(b.contains(v));
                assert(a.contains(v));
                let m = a.index_of(v);
                assert(m < a.len() - 1);
                assert(ra[m] == v);
            }
        }
        assert forall|p: int, q: int| 0 <= p < q < ra.len() implies #[trigger] ra[p]
            < #[trigger] ra[q] by {
            assert(a[p] < a[q]);
        }
        assert forall|p: int, q: int| 0 <= p < q < rb.len() implies #[trigger] rb[p]
            < #[trigger] rb[q] by {
            assert(b[p] < b[q]);
        }
        lemma_same_ascending(ra, rb);
        assert(a =~= ra.push(x));
        assert(b =~= rb.push(y));
    }
}

/// What a pause before a wave names as the next node: all nodes that can run, in
/// the order of the DAG and separated by commas. `ready` lists their places.
pub proof fn law_pauses_name_the_whole_wave<S, N, D, C>(
    graph: GraphView<N, D, C>,
    run: DagRun<S>,
    n: u64,
    next: NextWave<S>,
    ready: Seq<int>,
)
    requires
        is_next_wave(graph, run, n, next),
        next is Paused,
        forall|a: int, b: int| 0 <= a < b < ready.len() ==> #[trigger] ready[a] < #[trigger] ready[b],
        forall|i: int| #[trigger]
            ready.contains(i) <==> 0 <= i < run.dag@.nodes.len() && run.dag@.nodes[i].status
                == NodeStatus::Pending && forall|k: int|
                #![trigger run.dag@.nodes[i].depends_on[k]]
                0 <= k < run.dag@.nodes[i].depends_on.len() ==> exists|j: int|
                    0 <= j < run.dag@.nodes.len() && (#[trigger] run.dag@.nodes[j]).id
                        == run.dag@.nodes[i].depends_on[k] && run.dag@.nodes[j].status
                        == NodeStatus::Done,
    ensures
        next->Paused_save@.next_node == joined(
            Seq::new(ready.len(), |k: int| run.dag@.nodes[ready[k]].step_type),
            ","@,
        ),
{
    let nodes = run.dag@.nodes;
    let wave = ready_wave(nodes);
    lemma_ready_below(nodes, nodes.len());
    assert forall|i: int| #[trigger] ready.contains(i) <==> wave.contains(i) by {
        if wave.contains(i) {
            let at = wave.index_of(i);
            assert(0 <= wave[at] < nodes.len());
            lemma_in_wave_is_free(nodes, i);
        }
        if ready.contains(i) {
            lemma_free_is_in_wave(nodes, i);
        }
    }
    lemma_same_ascending(ready, wave);
    assert(names_at(nodes, wave) =~= Seq::new(
        ready.len(),
        |k: int| run.dag@.nodes[ready[k]].step_type,
    ));
}

/// The names of the nodes that wait are those at the places that are listed.
proof fn lemma_waiting_names(nodes: Seq<DAGNodeView>, n: nat, count_yielded: bool, places: Seq<int>)
    requires
        n <= nodes.len(),
        forall|a: int, b: int|
            0 <= a < b < places.len() ==> #[trigger] places[a] < #[trigger] places[b],
        forall|i: int| #[trigger]
            places.contains(i) <==> 0 <= i < n && (nodes[i].status == NodeStatus::Pending || (
            count_yielded && nodes[i].status == NodeStatus::Yielded)),
    ensures
        waiting_below(nodes, n, count_yielded) == Seq::new(
            places.len(),
            |k: int| nodes[places[k]].step_type,
        ),
    decreases n,
{
    let named = Seq::new(places.len(), |k: int| nodes[places[k]].step_type);
    if n == 0 {
        if places.len() > 0 {
            assert(places.contains(places[0]));
        }
        assert(waiting_below(nodes, n, count_yielded) =~= named);
    } else if places.contains(n - 1) {
        let at = places.index_of(n - 1);
        if at < places.len() - 1 {
            assert(places[at] < places[places.len() - 1]);
            assert(places.contains(places[places.len() - 1]));
        }
        let fewer = places.drop_last();
        assert forall|i: int| #[trigger] fewer.contains(i) <==> 0 <= i < n - 1 && (nodes[i].status
            == NodeStatus::Pending || (count_yielded && nodes[i].status == NodeStatus::Yielded)) by {
            if fewer.contains(i) {
                let k = fewer.index_of(i);
                assert(places[k] == i);
                assert(places[k] < places[places.len() - 1]);
                assert(places.contains(i));
            }
            if places.contains(i) && i < n - 1 {
                let k = places.index_of(i);
                assert(fewer[k] == i);
            }
        }
        assert forall|a: int, b: int| 0 <= a < b < fewer.len() implies #[trigger] fewer[a]
            < #[trigger] fewer[b] by {
            assert(places[a] < places[b]);
        }
        lemma_waiting_names(nodes, (n - 1) as nat, count_yielded, fewer);
        assert(waiting_below(nodes, n, count_yielded) =~= named);
    } else {
        assert forall|i: int| #[trigger] places.contains(i) <==> 0 <= i < n - 1 && (nodes[i].status
            == NodeStatus::Pending || (count_yielded && nodes[i].status == NodeStatus::Yielded)) by {
            assert(i == n - 1 || i != n - 1);
        }
        lemma_waiting_names(nodes, (n - 1) as nat, count_yielded, places);
    }
}

/// What the checkpoint of a wave in which a node yielded names as the next node:
/// all nodes that are pending or yielded, in the order of the DAG and separated
/// by commas. `places` lists them.
pub proof fn law_yields_name_what_is_unfinished<S, N, D, C>(
    graph: GraphView<N, D, C>,
    merged: MergedWave<S>,
    state_bytes: usize,
    checkpointed: Checkpointed<S>,
    places: Seq<int>,
)
    requires
        is_checkpointed(graph, merged, state_bytes, checkpointed),
        checkpointed is Save,
        merged.yielded is Some,
        forall|a: int, b: int|
            0 <= a < b < places.len() ==> #[trigger] places[a] < #[trigger] places[b],
        forall|i: int| #[trigger]
            places.contains(i) <==> 0 <= i < merged.run.dag@.nodes.len() && (
            merged.run.dag@.nodes[i].status == NodeStatus::Pending
                || merged.run.dag@.nodes[i].status == NodeStatus::Yielded),
    ensures
        checkpointed->Save_save@.next_node == joined(
            Seq::new(places.len(), |k: int| merged.run.dag@.nodes[places[k]].step_type),
            ","@,
        ),
{
    let nodes = merged.run.dag@.nodes;
    lemma_waiting_names(nodes, nodes.len(), true, places);
}

/// What a deadlock names: all pending nodes, in the order of the DAG.
pub proof fn law_deadlocks_name_what_is_pending<S, N, D, C>(
    graph: GraphView<N, D, C>,
    run: DagRun<S>,
    n: u64,
    next: NextWave<S>,
    places: Seq<int>,
)
    requires
        is_next_wave(graph, run, n, next),
        next is Failed,
        next->Failed_0.error@ is DAGDeadlock,
        forall|a: int, b: int|
            0 <= a < b < places.len() ==> #[trigger] places[a] < #[trigger] places[b],
        forall|i: int| #[trigger]
            places.contains(i) <==> 0 <= i < run.dag@.nodes.len() && run.dag@.nodes[i].status
                == NodeStatus::Pending,
    ensures
        next->Failed_0.error@ == TakelnErrorView::DAGDeadlock(
            joined(
                Seq::new(places.len(), |k: int| run.dag@.nodes[places[k]].step_type),
                ", "@,
            ),
        ),
{
    let nodes = run.dag@.nodes;
    assert forall|i: int| #[trigger] places.contains(i) <==> 0 <= i < nodes.len() && (
    nodes[i].status == NodeStatus::Pending || (false && nodes[i].status == NodeStatus::Yielded)) by {
    }
    lemma_waiting_names(nodes, nodes.len(), false, places);
}

/// Which nodes a partial failure names: those that succeeded and those that
/// failed with their errors, in the order of their arrival.
pub proof fn law_partial_failures_name_both<S: Merge, N, D, C>(
    graph: GraphView<N, D, C>,
    wave: Wave<S>,
    spent: Eur,
    after: Settled<S>,
)
    requires
        is_settled(graph, wave, spent, after),
        wave.failed@.len() > 0,
    ensures
        ({
            let error = after->Failed_failure.error@;
            &&& error->succeeded.len() == wave.succeeded@.len()
            &&& error->failed.len() == wave.failed@.len()
            &&& forall|k: int|
                0 <= k < wave.succeeded@.len() ==> #[trigger] error->succeeded[k]
                    == wave.succeeded@[k]@
            &&& forall|k: int|
                0 <= k < wave.failed@.len() ==> (#[trigger] error->failed[k]).0
                    == wave.failed@[k].0@ && error->failed[k].1 == wave.failed@[k].1@
        }),
{
}

/// What is said of an error of a wave: that the node failed, and how.
pub proof fn law_wave_errors_are_told<S, N, D, C>(
    graph: GraphView<N, D, C>,
    wave: Wave<S>,
    index: usize,
    error: GraphErrorView,
    timing: TaskTiming,
    after: Collected<S>,
)
    requires
        is_collected_error(graph, wave, index, error, timing, after),
        index < wave.run.dag@.nodes.len(),
        error is Fatal || error is Retryable,
    ensures
        ({
            let name = wave.run.dag@.nodes[index as int].step_type;
            let text = match error {
                GraphErrorView::Fatal(reason) => "Fatal error: "@ + reason,
                GraphErrorView::Retryable(reason) => "Retryable error: "@ + reason,
                _ => Seq::empty(),
            };
            &&& after is Failed ==> after->Failed_failure.error@
                == TakelnErrorView::ExecutionError("Node "@ + name + " failed: "@ + text)
            &&& after is Continue ==> after->Continue_0.failed@.last().1@ == text
        }),
{
    if after is Continue {
        let next = after->Continue_0;
        let is = text_pairs(next.failed@);
        assert(is.len() == next.failed@.len());
        assert(is[is.len() - 1].1 == next.failed@[next.failed@.len() - 1].1@);
    }
}

/// What is kept to be made known of a wave node that did not succeed: that it was
/// cancelled where it yielded and failed otherwise, with the attempt and duration
/// that its task took; where the run ends at once, every report of the wave is
/// made known and this one last.
pub proof fn law_wave_errors_are_reported<S, N, D, C>(
    graph: GraphView<N, D, C>,
    wave: Wave<S>,
    index: usize,
    error: GraphErrorView,
    timing: TaskTiming,
    after: Collected<S>,
)
    requires
        is_collected_error(graph, wave, index, error, timing, after),
        index < wave.run.dag@.nodes.len(),
    ensures
        after is Continue ==> {
            let reports = report_list(after->Continue_0.reports@);
            let report = reports.last();
            &&& reports.drop_last() == report_list(wave.reports@)
            &&& report.node_name == wave.run.dag@.nodes[index as int].step_type
            &&& report.thread_id == wave.run.thread_id@
            &&& report.dag_id == Some(hyphenated(wave.run.dag@.id))
            &&& report.status == SpanStatus::Cancelled <==> error is Yield
            &&& report.status == SpanStatus::Error <==> !(error is Yield)
            &&& report.attempt == timing.attempt
            &&& report.started_at == timing.started_at
            &&& report.duration_ms == timing.duration_ms
            &&& report.error is Some
        },
        after is Failed ==> {
            let effects = effect_list(after->Failed_effects@);
            &&& effects.len() >= 2
            &&& effects[effects.len() - 2] is Span
            &&& effects[effects.len() - 2]->Span_0.node_name
                == wave.run.dag@.nodes[index as int].step_type
            &&& effects[effects.len() - 2]->Span_0.status == SpanStatus::Error
            &&& effects[effects.len() - 2]->Span_0.attempt == timing.attempt
            &&& effects[effects.len() - 2]->Span_0.checkpoint_id is None
            &&& effects[effects.len() - 1] == (EffectView::NodeComplete {
                node_name: wave.run.dag@.nodes[index as int].step_type,
                duration_ms: timing.duration_ms,
                status: SpanStatus::Error,
            })
        },
{
    if after is Continue {
        let reports = report_list(after->Continue_0.reports@);
        assert(reports.drop_last() =~= report_list(wave.reports@));
    }
}

/// What is made known of an attempt of a task that is tried again: its span
/// alone, with the attempt that failed and why.
pub proof fn law_task_retries_are_reported(
    call: TaskCall,
    error: GraphErrorView,
    now: Timestamp,
    n: u64,
    after: AfterTaskFailure,
)
    requires
        is_task_failure(call, error, now, n, after),
        after is Retry,
    ensures
        effect_list(after->Retry_effects@).len() == 1,
        effect_list(after->Retry_effects@)[0] is Span,
        effect_list(after->Retry_effects@)[0]->Span_0.node_name == call.task.node_name@,
        effect_list(after->Retry_effects@)[0]->Span_0.thread_id == call.task.thread_id@,
        effect_list(after->Retry_effects@)[0]->Span_0.dag_id == Some(call.task.dag_id@),
        effect_list(after->Retry_effects@)[0]->Span_0.attempt == call.attempt,
        effect_list(after->Retry_effects@)[0]->Span_0.duration_ms == duration_ms(
            call.started_at,
            now,
        ),
        effect_list(after->Retry_effects@)[0]->Span_0.status == SpanStatus::Retrying,
        effect_list(after->Retry_effects@)[0]->Span_0.error == Some(
            SpanErrorView::Text(error->Retryable_0),
        ),
{
}

/// What is made known at the end of a DAG run: that the graph completed, at what
/// it cost, and that it finished.
pub proof fn law_dag_ends_are_reported<S, N, D, C>(
    graph: GraphView<N, D, C>,
    run: DagRun<S>,
    n: u64,
    next: NextWave<S>,
)
    requires
        is_next_wave(graph, run, n, next),
        next is Finished,
    ensures
        effect_list(next->Finished_effects@) == seq![
            EffectView::GraphComplete {
                thread_id: run.thread_id@,
                total_cost: run.spent,
                total_duration_ms: 0,
            },
            EffectView::Event(
                GraphEventView::GraphFinished {
                    thread_id: run.thread_id@,
                    cost: run.spent,
                    sequence_number: n,
                },
            ),
        ],
{
}

/// Where a result is over the budget of its node, the wave ends with what is
/// known of it, and that node is made known as failed.
pub proof fn law_results_over_budget_are_reported<S, N, D, C>(
    graph: GraphView<N, D, C>,
    wave: Wave<S>,
    index: usize,
    output: NodeOutput<S>,
    timing: TaskTiming,
    after: Collected<S>,
)
    requires
        is_collected(graph, wave, index, output, timing, after),
        index < wave.run.dag@.nodes.len(),
        after is Failed,
    ensures
        ({
            let effects = effect_list(after->Failed_effects@);
            &&& effects.len() >= 2
            &&& effects[effects.len() - 2] is Span
            &&& effects[effects.len() - 2]->Span_0.node_name
                == wave.run.dag@.nodes[index as int].step_type
            &&& effects[effects.len() - 2]->Span_0.status == SpanStatus::Error
            &&& effects[effects.len() - 2]->Span_0.attempt == timing.attempt
            &&& effects[effects.len() - 1] == (EffectView::NodeComplete {
                node_name: wave.run.dag@.nodes[index as int].step_type,
                duration_ms: timing.duration_ms,
                status: SpanStatus::Error,
            })
        }),
{
}

/// Where a wave ends without a checkpoint, every report of it is made known all
/// the same, without one.
pub proof fn law_failed_waves_are_reported<S: Merge, N, D, C>(
    graph: GraphView<N, D, C>,
    wave: Wave<S>,
    spent: Eur,
    after: Settled<S>,
    k: int,
)
    requires
        is_settled(graph, wave, spent, after),
        after is Failed,
        0 <= k < wave.reports@.len(),
    ensures
        exists|p: int|
            0 <= p < effect_list(after->Failed_effects@).len() && #[trigger] effect_list(
                after->Failed_effects@,
            )[p] is Span && effect_list(after->Failed_effects@)[p]->Span_0.node_name
                == wave.reports@[k].node_name@ && effect_list(
                after->Failed_effects@,
            )[p]->Span_0.checkpoint_id is None && effect_list(
                after->Failed_effects@,
            )[p]->Span_0.status == wave.reports@[k].status,
{
    let reports = report_list(wave.reports@);
    let at = lemma_report_is_among(reports, None, k);
    assert(reports[k] == wave.reports@[k]@);
    assert(reported(reports[k], None)[0] == all_reported(reports, None)[at + 0]);
}

} // verus!
