//! What holds of a DAG run that is resumed, beside the one that was not
//! interrupted.
use crate::acyclic::well_named;
use crate::checkpoint_meta::{CheckpointMetaView, CrashRecoveryPolicy};
use crate::dag::{restored_nodes, DAGNodeView, NodeStatus};
use crate::graph::{GraphView, NodeOutput};
use crate::merge::{merged_all, Merge};
use crate::money::Eur;
use crate::readiness::{as_indices, ready_wave};
use crate::resume::{crashed, resumed_nodes};
use crate::resume_laws::law_dag_resume_continues;
use crate::schedule::{schedulable, unique_ids};
use crate::tasks::TaskTiming;
use crate::wave_laws::{
    after_wave, after_waves, arrivals_of, arrived, between_waves, collects_to, is_collection,
    law_acyclic_dag_completes, law_collected_wave_is_done, law_collection_adds_up,
    law_merge_order_ignores_arrival, law_wave_makes_progress, lemma_same_schedule, same_topology,
};
use crate::waves::{
    is_checkpointed, is_next_wave, is_settled, is_wave_saved, results, AfterWave, Checkpointed,
    DagRun, NextWave, Settled, Wave,
};
use vstd::prelude::*;
use vstd::seq_lib::*;

verus! {

/// A full round of a DAG run: a wave that is launched, whose nodes all succeed
/// in some order, and the checkpoint after which the run goes on.
pub struct WaveRound<S> {
    pub began_number: u64,
    pub next: NextWave<S>,
    /// The wave as its results arrive.
    pub waves: Seq<Wave<S>>,
    pub indices: Seq<usize>,
    pub outputs: Seq<NodeOutput<S>>,
    pub times: Seq<TaskTiming>,
    pub spent: Eur,
    pub settled: Settled<S>,
    pub state_bytes: usize,
    pub checkpointed: Checkpointed<S>,
    pub checkpoint_id: Seq<char>,
    pub saved_number: u64,
    pub saved: AfterWave<S>,
}

/// Whether the round leads from one run to another.
pub open spec fn is_wave_round<S: Merge, N, D, C>(
    graph: GraphView<N, D, C>,
    from: DagRun<S>,
    round: WaveRound<S>,
    to: DagRun<S>,
) -> bool {
    &&& is_next_wave(graph, from, round.began_number, round.next)
    &&& round.next matches NextWave::Launch { wave, .. } && round.waves[0] == wave
    &&& is_collection(graph, round.waves, round.indices, round.outputs, round.times)
    &&& round.indices.no_duplicates()
    &&& forall|i: int| #[trigger]
        as_indices(round.indices).contains(i) <==> ready_wave(from.dag@.nodes).contains(i)
    &&& is_settled(graph, round.waves.last(), round.spent, round.settled)
    &&& round.settled matches Settled::Merged(merged) && is_checkpointed(
        graph,
        merged,
        round.state_bytes,
        round.checkpointed,
    )
    &&& round.checkpointed matches Checkpointed::Save { merged, .. } && is_wave_saved(
        graph,
        merged,
        round.checkpoint_id,
        round.saved_number,
        round.saved,
    )
    &&& round.saved matches AfterWave::Continue { run, .. } && to == run
}

/// A round does the nodes that were ready, leaves the others as they were, and
/// merges the results into the state in the order of the nodes.
pub proof fn law_wave_round<S: Merge, N, D, C>(
    graph: GraphView<N, D, C>,
    from: DagRun<S>,
    round: WaveRound<S>,
    to: DagRun<S>,
)
    requires
        is_wave_round(graph, from, round, to),
    ensures
        ready_wave(from.dag@.nodes).len() > 0,
        to.dag@.nodes == after_wave(from.dag@.nodes),
        to.thread_id == from.thread_id,
        to.entered,
        to.spent == round.spent,
        graph.fits(to.state_bytes),
        merged_all(
            from.state,
            results(arrived(arrivals_of(round.indices, round.outputs))),
            to.state,
        ),
{
    law_collection_adds_up(graph, round.waves, round.indices, round.outputs, round.times);
    law_collected_wave_is_done(from.dag@.nodes, as_indices(round.indices));
    lemma_collection_entered(graph, round.waves, round.indices, round.outputs, round.times);
}

/// Collecting leaves a wave entered.
proof fn lemma_collection_entered<S, N, D, C>(
    graph: GraphView<N, D, C>,
    waves: Seq<Wave<S>>,
    indices: Seq<usize>,
    outputs: Seq<NodeOutput<S>>,
    times: Seq<TaskTiming>,
)
    requires
        is_collection(graph, waves, indices, outputs, times),
    ensures
        waves.last().run.entered == waves[0].run.entered,
    decreases indices.len(),
{
    if indices.len() > 0 {
        let last = indices.len() - 1;
        let fewer = waves.drop_last();
        let some = indices.drop_last();
        assert forall|i: int| 0 <= i < some.len() implies {
            &&& (#[trigger] some[i]) < fewer[0].run.dag@.nodes.len()
            &&& collects_to(
                graph,
                fewer[i],
                some[i],
                outputs.drop_last()[i],
                times.drop_last()[i],
                fewer[i + 1],
            )
        } by {
            assert(indices[i] < waves[0].run.dag@.nodes.len());
        }
        lemma_collection_entered(graph, fewer, some, outputs.drop_last(), times.drop_last());
        assert(indices[last] < waves[0].run.dag@.nodes.len());
        assert(fewer.last() == waves[last]);
    }
}

/// Whether `rounds` lead through `runs`, one after the other.
pub open spec fn is_wave_trace<S: Merge, N, D, C>(
    graph: GraphView<N, D, C>,
    runs: Seq<DagRun<S>>,
    rounds: Seq<WaveRound<S>>,
) -> bool {
    &&& runs.len() == rounds.len() + 1
    &&& forall|i: int|
        0 <= i < rounds.len() ==> is_wave_round(graph, runs[i], #[trigger] rounds[i], runs[i + 1])
}

/// Whether the nodes of a round do what `behaviour` says: from the name of a
/// node and the state, the new state.
pub open spec fn wave_behaves<S>(
    from: DagRun<S>,
    round: WaveRound<S>,
    behaviour: spec_fn(Seq<char>, S) -> S,
) -> bool {
    forall|i: int|
        0 <= i < round.indices.len() ==> (#[trigger] round.outputs[i]).state == behaviour(
            from.dag@.nodes[round.indices[i] as int].step_type,
            from.state,
        )
}

/// Whether the nodes of all rounds do what `behaviour` says.
pub open spec fn waves_behave<S>(
    runs: Seq<DagRun<S>>,
    rounds: Seq<WaveRound<S>>,
    behaviour: spec_fn(Seq<char>, S) -> S,
) -> bool {
    forall|i: int|
        0 <= i < rounds.len() ==> wave_behaves(runs[i], #[trigger] rounds[i], behaviour)
}

/// Whether merging gives one result.
pub open spec fn merges_one_way<S: Merge>() -> bool {
    forall|before: S, other: S, a: S, b: S| #[trigger]
        S::merged(before, other, a) && #[trigger] S::merged(before, other, b) ==> a == b
}

proof fn lemma_merged_one_way<S: Merge>(before: S, others: Seq<S>, a: S, b: S)
    requires
        merges_one_way::<S>(),
        merged_all(before, others, a),
        merged_all(before, others, b),
    ensures
        a == b,
    decreases others.len(),
{
    if others.len() > 0 {
        let rest = others.drop_last();
        let x = choose|x: S|
            merged_all(before, rest, x) && #[trigger] S::merged(x, others.last(), a);
        let y = choose|y: S|
            merged_all(before, rest, y) && #[trigger] S::merged(y, others.last(), b);
        lemma_merged_one_way(before, rest, x, y);
    }
}

/// Results of the same nodes that are determined by the nodes are the same,
/// whatever the order of arrival.
proof fn lemma_same_arrivals<S>(
    a_indices: Seq<usize>,
    a_outputs: Seq<NodeOutput<S>>,
    b_indices: Seq<usize>,
    b_outputs: Seq<NodeOutput<S>>,
    of: spec_fn(usize) -> S,
)
    requires
        a_indices.no_duplicates(),
        b_indices.no_duplicates(),
        forall|i: int| #[trigger]
            as_indices(a_indices).contains(i) <==> as_indices(b_indices).contains(i),
        forall|i: int|
            0 <= i < a_indices.len() ==> (#[trigger] a_outputs[i]).state == of(a_indices[i]),
        forall|i: int|
            0 <= i < b_indices.len() ==> (#[trigger] b_outputs[i]).state == of(b_indices[i]),
    ensures
        arrived(arrivals_of(a_indices, a_outputs)) == arrived(arrivals_of(b_indices, b_outputs)),
{
    broadcast use group_to_multiset_ensures;

    let xs = arrivals_of(a_indices, a_outputs);
    let ys = arrivals_of(b_indices, b_outputs);
    lemma_contained(a_indices, a_outputs, b_indices, b_outputs, of);
    lemma_contained(b_indices, b_outputs, a_indices, a_outputs, of);
    assert(xs.no_duplicates()) by {
        assert forall|p: int, q: int| 0 <= p < xs.len() && 0 <= q < xs.len() && p != q implies xs[p]
            != xs[q] by {
            assert(a_indices[p] != a_indices[q]);
        }
    }
    assert(ys.no_duplicates()) by {
        assert forall|p: int, q: int| 0 <= p < ys.len() && 0 <= q < ys.len() && p != q implies ys[p]
            != ys[q] by {
            assert(b_indices[p] != b_indices[q]);
        }
    }
    xs.lemma_multiset_has_no_duplicates();
    ys.lemma_multiset_has_no_duplicates();
    assert forall|v: (usize, S)| xs.to_multiset().count(v) == ys.to_multiset().count(v) by {
        assert(xs.contains(v) <==> xs.to_multiset().count(v) > 0);
        assert(ys.contains(v) <==> ys.to_multiset().count(v) > 0);
        assert(xs.contains(v) <==> ys.contains(v));
        assert(xs.to_multiset().contains(v) <==> xs.to_multiset().count(v) > 0);
        assert(ys.to_multiset().contains(v) <==> ys.to_multiset().count(v) > 0);
    }
    assert(xs.to_multiset() =~= ys.to_multiset());
    assert forall|p: int, q: int|
        0 <= p < xs.len() && 0 <= q < xs.len() && (#[trigger] xs[p]).0 == (
        #[trigger] xs[q]).0 implies p == q by {
        assert(a_indices[p] == a_indices[q]);
    }
    assert forall|p: int, q: int|
        0 <= p < ys.len() && 0 <= q < ys.len() && (#[trigger] ys[p]).0 == (
        #[trigger] ys[q]).0 implies p == q by {
        assert(b_indices[p] == b_indices[q]);
    }
    law_merge_order_ignores_arrival(xs, ys);
}

proof fn lemma_contained<S>(
    a_indices: Seq<usize>,
    a_outputs: Seq<NodeOutput<S>>,
    b_indices: Seq<usize>,
    b_outputs: Seq<NodeOutput<S>>,
    of: spec_fn(usize) -> S,
)
    requires
        forall|i: int| #[trigger]
            as_indices(a_indices).contains(i) ==> as_indices(b_indices).contains(i),
        forall|i: int|
            0 <= i < a_indices.len() ==> (#[trigger] a_outputs[i]).state == of(a_indices[i]),
        forall|i: int|
            0 <= i < b_indices.len() ==> (#[trigger] b_outputs[i]).state == of(b_indices[i]),
    ensures
        forall|v: (usize, S)| #[trigger]
            arrivals_of(a_indices, a_outputs).contains(v) ==> arrivals_of(
                b_indices,
                b_outputs,
            ).contains(v),
{
    let xs = arrivals_of(a_indices, a_outputs);
    let ys = arrivals_of(b_indices, b_outputs);
    assert forall|v: (usize, S)| #[trigger] xs.contains(v) implies ys.contains(v) by {
        let p = xs.index_of(v);
        assert(a_outputs[p].state == of(a_indices[p]));
        assert(as_indices(a_indices)[p] == a_indices[p] as int);
        assert(as_indices(a_indices).contains(a_indices[p] as int));
        assert(as_indices(b_indices).contains(a_indices[p] as int));
        let q = as_indices(b_indices).index_of(a_indices[p] as int);
        assert(b_indices[q] == a_indices[p]);
        assert(b_outputs[q].state == of(b_indices[q]));
        assert(ys[q] == v);
    }
}

/// Runs that have the same nodes and the same state stay in step.
proof fn lemma_waves_in_step<S: Merge, N, D, C>(
    graph: GraphView<N, D, C>,
    behaviour: spec_fn(Seq<char>, S) -> S,
    runs: Seq<DagRun<S>>,
    rounds: Seq<WaveRound<S>>,
    k: int,
    others: Seq<DagRun<S>>,
    other_rounds: Seq<WaveRound<S>>,
    j: int,
)
    requires
        merges_one_way::<S>(),
        is_wave_trace(graph, runs, rounds),
        is_wave_trace(graph, others, other_rounds),
        waves_behave(runs, rounds, behaviour),
        waves_behave(others, other_rounds, behaviour),
        0 <= k <= rounds.len(),
        0 <= j <= other_rounds.len(),
        k + j <= rounds.len(),
        others[0].dag@.nodes == runs[k].dag@.nodes,
        others[0].state == runs[k].state,
    ensures
        others[j].dag@.nodes == runs[k + j].dag@.nodes,
        others[j].state == runs[k + j].state,
        j > 0 ==> others[j].entered && runs[k + j].entered,
    decreases j,
{
    if j > 0 {
        lemma_waves_in_step(graph, behaviour, runs, rounds, k, others, other_rounds, j - 1);
        let from = runs[k + j - 1];
        let a = rounds[k + j - 1];
        let b = other_rounds[j - 1];
        assert(is_wave_round(graph, from, a, runs[k + j - 1 + 1]));
        assert(is_wave_round(graph, others[j - 1], b, others[j - 1 + 1]));
        law_wave_round(graph, from, a, runs[k + j]);
        law_wave_round(graph, others[j - 1], b, others[j]);
        assert(wave_behaves(from, a, behaviour));
        assert(wave_behaves(others[j - 1], b, behaviour));
        lemma_same_arrivals(
            a.indices,
            a.outputs,
            b.indices,
            b.outputs,
            |i: usize| behaviour(from.dag@.nodes[i as int].step_type, from.state),
        );
        lemma_merged_one_way(
            from.state,
            results(arrived(arrivals_of(a.indices, a.outputs))),
            runs[k + j].state,
            others[j].state,
        );
    }
}

/// Between the rounds of a run, every node waits or is done.
proof fn lemma_trace_between_waves<S: Merge, N, D, C>(
    graph: GraphView<N, D, C>,
    runs: Seq<DagRun<S>>,
    rounds: Seq<WaveRound<S>>,
    k: int,
)
    requires
        is_wave_trace(graph, runs, rounds),
        between_waves(runs[0].dag@.nodes),
        unique_ids(runs[0].dag@.nodes),
        0 <= k <= rounds.len(),
    ensures
        between_waves(runs[k].dag@.nodes),
        unique_ids(runs[k].dag@.nodes),
    decreases k,
{
    if k > 0 {
        lemma_trace_between_waves(graph, runs, rounds, k - 1);
        assert(is_wave_round(graph, runs[k - 1], rounds[k - 1], runs[k - 1 + 1]));
        law_wave_round(graph, runs[k - 1], rounds[k - 1], runs[k]);
        let before = runs[k - 1].dag@.nodes;
        law_wave_makes_progress(before);
        assert forall|a: int, b: int|
            0 <= a < before.len() && 0 <= b < before.len() && (#[trigger] after_wave(before)[a]).id
                == (#[trigger] after_wave(before)[b]).id implies a == b by {
            assert(before[a].id == before[b].id);
        }
    }
}

/// A DAG run that yielded, paused or crashed runs to completion once it is
/// resumed and its nodes succeed: whatever was not done runs, after as many
/// waves as there are nodes at most.
pub proof fn law_resumed_dag_completes(
    nodes: Seq<DAGNodeView>,
    saved: Seq<DAGNodeView>,
    meta: CheckpointMetaView,
    policy: CrashRecoveryPolicy,
)
    requires
        well_named(nodes),
        schedulable(nodes),
        crashed(meta) ==> policy != CrashRecoveryPolicy::FailFast,
        forall|i: int|
            0 <= i < nodes.len() ==> (#[trigger] restored_nodes(nodes, saved)[i]).status
                != NodeStatus::Failed && (restored_nodes(nodes, saved)[i].status
                == NodeStatus::Running ==> crashed(meta)),
    ensures
        between_waves(resumed_nodes(nodes, saved, meta, policy)),
        forall|i: int|
            0 <= i < nodes.len() ==> (#[trigger] after_waves(
                resumed_nodes(nodes, saved, meta, policy),
                nodes.len(),
            )[i]).status == NodeStatus::Done,
{
    let restored = restored_nodes(nodes, saved);
    let resumed = resumed_nodes(nodes, saved, meta, policy);
    assert forall|i: int| 0 <= i < resumed.len() implies (#[trigger] resumed[i]).status
        == NodeStatus::Pending || resumed[i].status == NodeStatus::Done by {
        assert(restored[i].status != NodeStatus::Failed);
    }
    assert(same_topology(nodes, resumed));
    lemma_same_schedule(nodes, resumed);
    law_acyclic_dag_completes(resumed);
}

/// A resumed DAG run ends as the uninterrupted one: where nodes and merging are
/// deterministic, a thread that is resumed from the checkpoint of a wave goes
/// through the same waves with the same states, whatever the order in which
/// nodes end, is never stopped before a wave that the other ran, and finishes
/// where and with what the other finished.
pub proof fn law_resumed_dag_ends_alike<S: Merge, N, D, C>(
    graph: GraphView<N, D, C>,
    behaviour: spec_fn(Seq<char>, S) -> S,
    runs: Seq<DagRun<S>>,
    rounds: Seq<WaveRound<S>>,
    n: u64,
    next: NextWave<S>,
    k: int,
    nodes: Seq<DAGNodeView>,
    meta: CheckpointMetaView,
    policy: CrashRecoveryPolicy,
    resumed: Seq<DagRun<S>>,
    resumed_rounds: Seq<WaveRound<S>>,
    m: u64,
    resumed_next: NextWave<S>,
)
    requires
        merges_one_way::<S>(),
        is_wave_trace(graph, runs, rounds),
        waves_behave(runs, rounds, behaviour),
        between_waves(runs[0].dag@.nodes),
        unique_ids(runs[0].dag@.nodes),
        is_next_wave(graph, runs.last(), n, next),
        next is Finished,
        0 <= k <= rounds.len(),
        nodes.len() == runs[k].dag@.nodes.len(),
        forall|i: int|
            0 <= i < nodes.len() ==> (#[trigger] nodes[i]).id == runs[k].dag@.nodes[i].id
                && nodes[i].step_type == runs[k].dag@.nodes[i].step_type && nodes[i].depends_on
                == runs[k].dag@.nodes[i].depends_on,
        is_wave_trace(graph, resumed, resumed_rounds),
        waves_behave(resumed, resumed_rounds, behaviour),
        resumed[0].dag@.nodes == resumed_nodes(nodes, runs[k].dag@.nodes, meta, policy),
        resumed[0].state == runs[k].state,
        !resumed[0].entered,
        is_next_wave(graph, resumed.last(), m, resumed_next),
    ensures
        resumed_rounds.len() <= rounds.len() - k,
        forall|j: int|
            0 <= j < resumed.len() ==> (#[trigger] resumed[j]).dag@.nodes == runs[k + j].dag@.nodes
                && resumed[j].state == runs[k + j].state,
        resumed_rounds.len() < rounds.len() - k ==> resumed_next is Launch,
        resumed_rounds.len() == rounds.len() - k ==> resumed_next is Finished
            && resumed_next->Finished_state == next->Finished_state
            && resumed_next->Finished_dag@.nodes == next->Finished_dag@.nodes,
{
    lemma_trace_between_waves(graph, runs, rounds, k);
    law_dag_resume_continues(runs[k].dag@.nodes, nodes, meta, policy);
    let left = rounds.len() - k;
    if resumed_rounds.len() > left {
        lemma_waves_in_step(graph, behaviour, runs, rounds, k, resumed, resumed_rounds, left);
        assert(runs[k + left] == runs.last());
        assert(is_wave_round(graph, resumed[left], resumed_rounds[left], resumed[left + 1]));
        law_wave_round(graph, resumed[left], resumed_rounds[left], resumed[left + 1]);
        assert(false);
    }
    assert forall|j: int| 0 <= j < resumed.len() implies (#[trigger] resumed[j]).dag@.nodes
        == runs[k + j].dag@.nodes && resumed[j].state == runs[k + j].state by {
        lemma_waves_in_step(graph, behaviour, runs, rounds, k, resumed, resumed_rounds, j);
    }
    let j = resumed_rounds.len() as int;
    lemma_waves_in_step(graph, behaviour, runs, rounds, k, resumed, resumed_rounds, j);
    assert(resumed.last() == resumed[j]);
    if j < left {
        assert(is_wave_round(graph, runs[k + j], rounds[k + j], runs[k + j + 1]));
        law_wave_round(graph, runs[k + j], rounds[k + j], runs[k + j + 1]);
    } else {
        assert(runs[k + j] == runs.last());
    }
}

} // verus!
