//! What holds of sequential runs over several steps.
use crate::checkpoint::SaveRequest;
use crate::checkpoint_meta::{CheckpointMetaView, CheckpointStatus};
use crate::clock::Timestamp;
use crate::error::GraphErrorView;
use crate::execution_laws::run_key;
use crate::graph::{end_name, routes_to, GraphView, NodeOutput};
use crate::money::{amount_or_zero, over, Eur};
use crate::resume::{crashed, is_fresh, resumes_at, seen_by};
use crate::sequential::{
    chooses_next, is_failure, is_next, is_saved, is_success, AfterFailure, AfterSave, AfterSuccess,
    Next, NodeCall, SequentialRun,
};
use crate::text::text_option;
use vstd::prelude::*;

verus! {

/// A full round of a sequential run: a step that begins with a call, the call
/// that succeeds at last, and the checkpoint after which the run goes on.
pub struct Round<S> {
    pub began: Timestamp,
    pub began_number: u64,
    pub next: Next<S>,
    /// The call that succeeded.
    pub call: NodeCall<S>,
    pub output: NodeOutput<S>,
    pub state_bytes: usize,
    pub spent: Eur,
    pub ended: Timestamp,
    pub ended_number: u64,
    pub after: AfterSuccess<S>,
    pub checkpoint_id: String,
    pub saved_number: u64,
    pub saved: AfterSave<S>,
}

/// Whether `call` is `first` after some attempts: only the attempt and the
/// pending input differ.
pub open spec fn same_call<S>(first: NodeCall<S>, call: NodeCall<S>) -> bool {
    call == (NodeCall {
        attempt: call.attempt,
        run: SequentialRun { pending_input: call.run.pending_input, ..first.run },
        ..first
    })
}

/// Whether the round leads from one run to another.
pub open spec fn is_round<S, N, D, C: Fn(&S) -> String>(
    graph: GraphView<N, D, C>,
    from: SequentialRun<S>,
    round: Round<S>,
    to: SequentialRun<S>,
) -> bool {
    &&& is_next(graph, from, round.began, round.began_number, round.next)
    &&& round.next matches Next::Call { call: first, .. } && same_call(first, round.call)
    &&& is_success(
        graph,
        round.call,
        round.output,
        round.state_bytes,
        round.spent,
        round.ended,
        round.ended_number,
        round.after,
    )
    &&& round.after matches AfterSuccess::Completed { step, .. } && is_saved(
        graph,
        step,
        round.checkpoint_id,
        round.saved_number,
        round.saved,
    )
    &&& round.saved matches AfterSave::Continue { run, .. } && to == run
}

/// A round takes one step within the limit, executes a registered node that is
/// not the end, moves on to the node chosen, keeps to the budgets, and passes
/// neither an interrupt before the node, unless it is the first, nor one after
/// it.
pub proof fn law_round<S, N, D, C: Fn(&S) -> String>(
    graph: GraphView<N, D, C>,
    from: SequentialRun<S>,
    round: Round<S>,
    to: SequentialRun<S>,
)
    requires
        is_round(graph, from, round, to),
    ensures
        to.steps == from.steps + 1,
        to.steps <= graph.resource_limits.max_sequential_steps,
        from.node@ != end_name(),
        graph.registered(from.node@),
        to.entered,
        to.state == round.output.state,
        chooses_next(graph, round.call, round.output, to.node@),
        to.thread_id == from.thread_id,
        to.resolved_interrupt == from.resolved_interrupt,
        to.last_checkpoint_id == Some(round.checkpoint_id),
        !over(graph.budget_eur, to.spent),
        !over(graph.node_budget(from.node@), amount_or_zero(round.output.meta.cost_eur)),
        graph.fits(to.state_bytes),
        from.entered ==> !graph.interrupt_before.contains(from.node@),
        !graph.interrupt_after.contains(from.node@),
{
}

/// Whether `rounds` lead through `runs`, one after the other.
pub open spec fn is_trace<S, N, D, C: Fn(&S) -> String>(
    graph: GraphView<N, D, C>,
    runs: Seq<SequentialRun<S>>,
    rounds: Seq<Round<S>>,
) -> bool {
    &&& runs.len() == rounds.len() + 1
    &&& forall|i: int|
        0 <= i < rounds.len() ==> is_round(graph, runs[i], #[trigger] rounds[i], runs[i + 1])
}

/// A run cannot loop for ever: from its beginning it goes through at most as
/// many rounds as the step limit allows, counted by its steps.
pub proof fn law_runs_are_limited<S, N, D, C: Fn(&S) -> String>(
    graph: GraphView<N, D, C>,
    runs: Seq<SequentialRun<S>>,
    rounds: Seq<Round<S>>,
)
    requires
        is_trace(graph, runs, rounds),
        runs[0].steps == 0,
    ensures
        runs.last().steps == rounds.len(),
        rounds.len() <= graph.resource_limits.max_sequential_steps,
    decreases rounds.len(),
{
    if rounds.len() > 0 {
        let last = rounds.len() - 1;
        let fewer_runs = runs.drop_last();
        let fewer = rounds.drop_last();
        assert forall|i: int| 0 <= i < fewer.len() implies is_round(
            graph,
            fewer_runs[i],
            #[trigger] fewer[i],
            fewer_runs[i + 1],
        ) by {
            assert(is_round(graph, runs[i], rounds[i], runs[i + 1]));
        }
        law_runs_are_limited(graph, fewer_runs, fewer);
        assert(is_round(graph, runs[last], rounds[last], runs[last + 1]));
        law_round(graph, runs[last], rounds[last], runs[last + 1]);
    }
}

/// Whether `again` is a retry of `call` after `error`.
pub open spec fn is_retry<S, N, D, C>(
    graph: GraphView<N, D, C>,
    call: NodeCall<S>,
    error: GraphErrorView,
    now: Timestamp,
    n: u64,
    again: NodeCall<S>,
) -> bool {
    exists|after: AfterFailure<S>| #[trigger]
        is_failure(graph, call, error, now, n, after) && (after matches AfterFailure::Retry {
            call: c,
            ..
        } && c == again)
}

/// A retry counts one attempt more, stays below the maximum, follows a
/// retryable error of a regular node, and changes nothing else.
pub proof fn law_retry<S, N, D, C>(
    graph: GraphView<N, D, C>,
    call: NodeCall<S>,
    error: GraphErrorView,
    now: Timestamp,
    n: u64,
    again: NodeCall<S>,
)
    requires
        is_retry(graph, call, error, now, n, again),
    ensures
        again.attempt == call.attempt + 1,
        again.attempt < call.retry.max_attempts,
        error is Retryable,
        !call.dynamic,
        again == (NodeCall { attempt: again.attempt, ..call }),
{
}

/// Whether each call of the list is a retry of the one before.
pub open spec fn are_retries<S, N, D, C>(
    graph: GraphView<N, D, C>,
    calls: Seq<NodeCall<S>>,
    errors: Seq<GraphErrorView>,
    times: Seq<Timestamp>,
    numbers: Seq<u64>,
) -> bool {
    &&& calls.len() == errors.len() + 1
    &&& times.len() == errors.len()
    &&& numbers.len() == errors.len()
    &&& forall|i: int|
        0 <= i < errors.len() ==> is_retry(
            graph,
            calls[i],
            #[trigger] errors[i],
            times[i],
            numbers[i],
            calls[i + 1],
        )
}

/// A node is called at most as often as its policy allows, and at least once.
pub proof fn law_attempts_are_limited<S, N, D, C>(
    graph: GraphView<N, D, C>,
    calls: Seq<NodeCall<S>>,
    errors: Seq<GraphErrorView>,
    times: Seq<Timestamp>,
    numbers: Seq<u64>,
)
    requires
        are_retries(graph, calls, errors, times, numbers),
        calls[0].attempt == 0,
    ensures
        calls.last().attempt == calls.len() - 1,
        calls.last().retry == calls[0].retry,
        calls.len() == 1 || calls.len() <= calls[0].retry.max_attempts,
    decreases errors.len(),
{
    if errors.len() > 0 {
        let last = errors.len() - 1;
        let fewer = calls.drop_last();
        assert forall|i: int| 0 <= i < errors.drop_last().len() implies is_retry(
            graph,
            fewer[i],
            #[trigger] errors.drop_last()[i],
            times.drop_last()[i],
            numbers.drop_last()[i],
            fewer[i + 1],
        ) by {
            assert(is_retry(graph, calls[i], errors[i], times[i], numbers[i], calls[i + 1]));
        }
        law_attempts_are_limited(
            graph,
            fewer,
            errors.drop_last(),
            times.drop_last(),
            numbers.drop_last(),
        );
        assert(is_retry(
            graph,
            calls[last],
            errors[last],
            times[last],
            numbers[last],
            calls[last + 1],
        ));
        law_retry(graph, calls[last], errors[last], times[last], numbers[last], calls[last + 1]);
    }
}

/// A thread that is resumed from the checkpoint of a completed step goes on
/// where the run went on: at the same node, with the same state, seeing the same
/// checkpoint, so that what it executes has the same execution identifier.
pub proof fn law_resume_continues<S, N, D, C: Fn(&S) -> String>(
    graph: GraphView<N, D, C>,
    from: SequentialRun<S>,
    round: Round<S>,
    to: SequentialRun<S>,
    save: SaveRequest,
    meta: CheckpointMetaView,
    log: Seq<CheckpointMetaView>,
    resumed: SequentialRun<S>,
    state_bytes: usize,
)
    requires
        is_round(graph, from, round, to),
        round.after matches AfterSuccess::Completed { save: s, .. } && s == save,
        meta.checkpoint_id == round.checkpoint_id@,
        meta.thread_id == save@.thread_id,
        meta.next_node == save@.next_node,
        meta.status == save@.status,
        is_fresh(
            resumed,
            meta.thread_id,
            to.state,
            state_bytes,
            seen_by(log.push(meta), resumed.node@),
        ),
        resumes_at::<S, N, D, C>(graph, to.state, meta, resumed.node@),
    ensures
        meta.status == CheckpointStatus::Complete,
        resumed.thread_id@ == to.thread_id@,
        resumed.node@ == to.node@,
        resumed.state == to.state,
        text_option(resumed.last_checkpoint_id) == text_option(to.last_checkpoint_id),
        run_key(resumed) == run_key(to),
{
    assert(log.push(meta).last() == meta);
}

/// A run that stops after a node leaves a checkpoint that says so; resumed from
/// it, the thread goes on with the node chosen and the state that the node left.
pub proof fn law_stop_after_goes_on<S, N, D, C: Fn(&S) -> String>(
    graph: GraphView<N, D, C>,
    call: NodeCall<S>,
    output: NodeOutput<S>,
    state_bytes: usize,
    spent: Eur,
    now: Timestamp,
    n: u64,
    after: AfterSuccess<S>,
    checkpoint_id: String,
    m: u64,
    saved: AfterSave<S>,
    meta: CheckpointMetaView,
    resumed: SequentialRun<S>,
    seen: Option<Seq<char>>,
)
    requires
        is_success(graph, call, output, state_bytes, spent, now, n, after),
        after matches AfterSuccess::Completed { step, save } && is_saved(
            graph,
            step,
            checkpoint_id,
            m,
            saved,
        ) && meta.next_node == save@.next_node && meta.status == save@.status,
        saved is Paused,
        is_fresh(resumed, call.run.thread_id@, saved->Paused_state, state_bytes, seen),
        resumes_at::<S, N, D, C>(graph, resumed.state, meta, resumed.node@),
    ensures
        meta.status == CheckpointStatus::Interrupted,
        resumed.state == output.state,
        chooses_next(graph, call, output, resumed.node@),
{
}

/// Whether conditional edges lead to one node from one state.
pub open spec fn decided<S, N, D, C: Fn(&S) -> String>(graph: GraphView<N, D, C>) -> bool {
    forall|name: Seq<char>, state: S, a: Seq<char>, b: Seq<char>| #[trigger]
        routes_to::<S, C>(graph.edges, name, state, a) && #[trigger] routes_to::<S, C>(
            graph.edges,
            name,
            state,
            b,
        ) ==> a == b
}

/// Whether the nodes of the rounds do what `behaviour` says: from the name of a
/// node and the state, the new state and the node that is asked for, if any.
pub open spec fn behaves<S>(
    rounds: Seq<Round<S>>,
    behaviour: spec_fn(Seq<char>, S) -> (S, Option<Seq<char>>),
) -> bool {
    forall|i: int|
        0 <= i < rounds.len() ==> ((#[trigger] rounds[i]).output.state, text_option(
            rounds[i].output.event,
        )) == behaviour(rounds[i].call.name(), rounds[i].call.run.state)
}

/// Runs that are at the same node with the same state stay in step.
proof fn lemma_in_step<S, N, D, C: Fn(&S) -> String>(
    graph: GraphView<N, D, C>,
    behaviour: spec_fn(Seq<char>, S) -> (S, Option<Seq<char>>),
    runs: Seq<SequentialRun<S>>,
    rounds: Seq<Round<S>>,
    k: int,
    others: Seq<SequentialRun<S>>,
    other_rounds: Seq<Round<S>>,
    j: int,
)
    requires
        decided::<S, N, D, C>(graph),
        is_trace(graph, runs, rounds),
        is_trace(graph, others, other_rounds),
        behaves(rounds, behaviour),
        behaves(other_rounds, behaviour),
        0 <= k <= rounds.len(),
        0 <= j <= other_rounds.len(),
        k + j <= rounds.len(),
        others[0].node@ == runs[k].node@,
        others[0].state == runs[k].state,
        others[0].steps == 0,
    ensures
        others[j].node@ == runs[k + j].node@,
        others[j].state == runs[k + j].state,
        others[j].steps == j,
        runs[k + j].steps >= j,
        j > 0 ==> others[j].entered && runs[k + j].entered,
    decreases j,
{
    if j > 0 {
        lemma_in_step(graph, behaviour, runs, rounds, k, others, other_rounds, j - 1);
        let a = rounds[k + j - 1];
        let b = other_rounds[j - 1];
        assert(is_round(graph, runs[k + j - 1], a, runs[k + j - 1 + 1]));
        assert(is_round(graph, others[j - 1], b, others[j - 1 + 1]));
        law_round(graph, runs[k + j - 1], a, runs[k + j]);
        law_round(graph, others[j - 1], b, others[j]);
        assert(a.call.name() == runs[k + j - 1].node@);
        assert(b.call.name() == others[j - 1].node@);
        match a.output.event {
            Some(target) => {},
            None => {
                assert(routes_to::<S, C>(
                    graph.edges,
                    a.call.name(),
                    a.output.state,
                    runs[k + j].node@,
                ));
                assert(routes_to::<S, C>(
                    graph.edges,
                    b.call.name(),
                    b.output.state,
                    others[j].node@,
                ));
            },
        }
    }
}

/// A resumed run ends as the uninterrupted one: where nodes and conditional
/// edges are deterministic, a thread that is resumed from a checkpoint at which
/// the uninterrupted run was goes through the same nodes with the same states,
/// is never stopped before a node that the other executed, and finishes where
/// and with what the other finished.
pub proof fn law_resumed_run_ends_alike<S, N, D, C: Fn(&S) -> String>(
    graph: GraphView<N, D, C>,
    behaviour: spec_fn(Seq<char>, S) -> (S, Option<Seq<char>>),
    runs: Seq<SequentialRun<S>>,
    rounds: Seq<Round<S>>,
    now: Timestamp,
    n: u64,
    next: Next<S>,
    k: int,
    meta: CheckpointMetaView,
    state_bytes: usize,
    seen: Option<Seq<char>>,
    resumed: Seq<SequentialRun<S>>,
    resumed_rounds: Seq<Round<S>>,
    later: Timestamp,
    m: u64,
    resumed_next: Next<S>,
)
    requires
        decided::<S, N, D, C>(graph),
        is_trace(graph, runs, rounds),
        behaves(rounds, behaviour),
        is_next(graph, runs.last(), now, n, next),
        next is Finished,
        0 <= k <= rounds.len(),
        meta.next_node == runs[k].node@,
        !crashed(meta),
        is_trace(graph, resumed, resumed_rounds),
        behaves(resumed_rounds, behaviour),
        is_fresh(resumed[0], runs[k].thread_id@, runs[k].state, state_bytes, seen),
        resumes_at::<S, N, D, C>(graph, runs[k].state, meta, resumed[0].node@),
        resumed[0].resolved_interrupt is None,
        is_next(graph, resumed.last(), later, m, resumed_next),
    ensures
        resumed_rounds.len() <= rounds.len() - k,
        forall|j: int|
            0 <= j < resumed.len() ==> (#[trigger] resumed[j]).node@ == runs[k + j].node@
                && resumed[j].state == runs[k + j].state,
        resumed_rounds.len() < rounds.len() - k ==> resumed_next is Call,
        resumed_rounds.len() == rounds.len() - k ==> resumed_next is Finished
            && resumed_next->Finished_state == next->Finished_state,
{
    let left = rounds.len() - k;
    if resumed_rounds.len() > left {
        lemma_in_step(graph, behaviour, runs, rounds, k, resumed, resumed_rounds, left);
        assert(runs[k + left] == runs.last());
        assert(is_round(graph, resumed[left], resumed_rounds[left], resumed[left + 1]));
        law_round(graph, resumed[left], resumed_rounds[left], resumed[left + 1]);
        assert(false);
    }
    assert forall|j: int| 0 <= j < resumed.len() implies (#[trigger] resumed[j]).node@ == runs[k
        + j].node@ && resumed[j].state == runs[k + j].state by {
        lemma_in_step(graph, behaviour, runs, rounds, k, resumed, resumed_rounds, j);
    }
    let j = resumed_rounds.len() as int;
    lemma_in_step(graph, behaviour, runs, rounds, k, resumed, resumed_rounds, j);
    assert(resumed.last() == resumed[j]);
    if j > 0 {
        lemma_same_interrupt(graph, resumed, resumed_rounds, j);
    }
    if j < left {
        assert(is_round(graph, runs[k + j], rounds[k + j], runs[k + j + 1]));
        law_round(graph, runs[k + j], rounds[k + j], runs[k + j + 1]);
    } else {
        assert(runs[k + j] == runs.last());
    }
}

/// A run keeps the interrupt that it resolves.
proof fn lemma_same_interrupt<S, N, D, C: Fn(&S) -> String>(
    graph: GraphView<N, D, C>,
    runs: Seq<SequentialRun<S>>,
    rounds: Seq<Round<S>>,
    j: int,
)
    requires
        is_trace(graph, runs, rounds),
        0 <= j <= rounds.len(),
    ensures
        runs[j].resolved_interrupt == runs[0].resolved_interrupt,
    decreases j,
{
    if j > 0 {
        lemma_same_interrupt(graph, runs, rounds, j - 1);
        assert(is_round(graph, runs[j - 1], rounds[j - 1], runs[j - 1 + 1]));
        law_round(graph, runs[j - 1], rounds[j - 1], runs[j]);
    }
}

/// A run that pauses before a node is resumed at that node, with the state it
/// had, and does not pause there again.
pub proof fn law_pause_is_passed_once<S, N, D, C: Fn(&S) -> String>(
    graph: GraphView<N, D, C>,
    run: SequentialRun<S>,
    now: Timestamp,
    n: u64,
    next: Next<S>,
    save: SaveRequest,
    meta: CheckpointMetaView,
    resumed: SequentialRun<S>,
    state_bytes: usize,
    seen: Option<Seq<char>>,
    later: Timestamp,
    m: u64,
    again: Next<S>,
)
    requires
        is_next(graph, run, now, n, next),
        next matches Next::Paused { save: s, .. } && s == save,
        meta.next_node == save@.next_node,
        meta.status == save@.status,
        is_fresh(resumed, run.thread_id@, run.state, state_bytes, seen),
        resumes_at::<S, N, D, C>(graph, run.state, meta, resumed.node@),
        is_next(graph, resumed, later, m, again),
    ensures
        meta.status == CheckpointStatus::Interrupted,
        resumed.node@ == run.node@,
        resumed.state == run.state,
        !(again is Paused),
        graph.registered(run.node@) && graph.resource_limits.max_sequential_steps > 0
            ==> again is Call,
{
}

/// Whatever a run asks to be saved is within the size limit.
pub proof fn law_saves_are_within_the_limit<S, N, D, C: Fn(&S) -> String>(
    graph: GraphView<N, D, C>,
    run: SequentialRun<S>,
    next: Next<S>,
    call: NodeCall<S>,
    error: GraphErrorView,
    failure: AfterFailure<S>,
    output: NodeOutput<S>,
    state_bytes: usize,
    spent: Eur,
    success: AfterSuccess<S>,
    now: Timestamp,
    n: u64,
)
    ensures
        is_next(graph, run, now, n, next) && (next is Paused || next is Closing) ==> graph.fits(
            run.state_bytes,
        ),
        is_failure(graph, call, error, now, n, failure) && failure is Yielded ==> graph.fits(
            call.run.state_bytes,
        ),
        is_success(graph, call, output, state_bytes, spent, now, n, success)
            && success is Completed ==> graph.fits(state_bytes),
{
}

/// A step that completes in a run that resolves an interrupt saves a checkpoint
/// that resolves it.
pub proof fn law_completed_step_resolves<S, N, D, C: Fn(&S) -> String>(
    graph: GraphView<N, D, C>,
    from: SequentialRun<S>,
    round: Round<S>,
    to: SequentialRun<S>,
    save: SaveRequest,
)
    requires
        is_round(graph, from, round, to),
        round.after matches AfterSuccess::Completed { save: s, .. } && s == save,
    ensures
        save@.resolved_interrupt == text_option(from.resolved_interrupt),
        save@.claimed_interrupt is None,
        save@.thread_id == from.thread_id@,
        save@.next_node == to.node@,
{
}

/// A node that yields leaves the state as it was and is the one that a resume
/// finds as the next node, with its request.
pub proof fn law_yield_keeps_the_state<S, N, D, C>(
    graph: GraphView<N, D, C>,
    call: NodeCall<S>,
    error: GraphErrorView,
    now: Timestamp,
    n: u64,
    after: AfterFailure<S>,
    run: SequentialRun<S>,
    save: SaveRequest,
)
    requires
        is_failure(graph, call, error, now, n, after),
        after matches AfterFailure::Yielded { step, save: s } && step.run == run && s == save,
    ensures
        run.state == call.run.state,
        error is Yield,
        save@.status == CheckpointStatus::Yielded,
        save@.yield_request == Some(error->Yield_0),
        save@.next_node == call.run.node@,
        save@.claimed_interrupt is None,
        save@.resolved_interrupt is None,
{
}

} // verus!
