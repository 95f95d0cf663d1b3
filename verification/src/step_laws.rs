//! What a sequential run owes at each of its phases, in terms of the graph, the
//! run and the outcome that comes back.
use crate::checkpoint_meta::{CheckpointMetaView, CheckpointStatus};
use crate::clock::{duration_debug, duration_ms, TimeSpan, Timestamp};
use crate::effects::{effect_list, step_reported, Effect, EffectView};
use crate::emitter::{SpanErrorView, SpanStatus};
use crate::error::{GraphError, GraphErrorView, TakelnErrorView};
use crate::graph::{EdgeView, GraphEventView, GraphView, NodeOutput};
use crate::hitl::ResumeMode;
use crate::money::Eur;
use crate::resume::{is_fresh, resumes_at};
use crate::retry::RetryPolicy;
use crate::sequential::{
    cancelled_error, failure_events, is_failure, is_next, is_saved, is_success, next_events,
    numbered, success_events, timeout_error, AfterFailure, AfterSave, AfterSuccess,
    CompletedStep, Next, NodeCall, SequentialRun,
};
use crate::sequential_laws::{are_retries, law_attempts_are_limited};
use crate::text::decimal;
use vstd::prelude::*;

verus! {

/// A run that took as many steps as the limit allows ends with that error, and
/// no run ends so before.
pub proof fn law_step_limit_is_exact<S, N, D, C>(
    graph: GraphView<N, D, C>,
    run: SequentialRun<S>,
    now: Timestamp,
    n: u64,
    next: Next<S>,
)
    requires
        is_next(graph, run, now, n, next),
    ensures
        run.steps >= graph.resource_limits.max_sequential_steps <==> next is Failed
            && next->Failed_0@ is StepLimitExceeded,
        run.steps >= graph.resource_limits.max_sequential_steps ==> next->Failed_0@ == (
        TakelnErrorView::StepLimitExceeded {
            steps: run.steps,
            limit: graph.resource_limits.max_sequential_steps,
        }),
{
}

/// A run that comes to the end finishes with the state it has; no other run
/// finishes.
pub proof fn law_end_finishes<S, N, D, C>(
    graph: GraphView<N, D, C>,
    run: SequentialRun<S>,
    now: Timestamp,
    n: u64,
    next: Next<S>,
)
    requires
        is_next(graph, run, now, n, next),
    ensures
        run.node@ == "__END__"@ && run.steps < graph.resource_limits.max_sequential_steps && (
        run.entered || run.resolved_interrupt is None) ==> next is Finished,
        next matches Next::Finished { state, .. } ==> run.node@ == "__END__"@ && state
            == run.state,
        next matches Next::Closing { run: closing, .. } ==> run.node@ == "__END__"@
            && closing.state == run.state && !run.entered && run.resolved_interrupt is Some,
        run.node@ == "__END__"@ && run.steps < graph.resource_limits.max_sequential_steps
            && !run.entered && run.resolved_interrupt is Some && run.state_bytes
            <= graph.resource_limits.max_checkpoint_bytes ==> next is Closing
            && next->Closing_save@.status == CheckpointStatus::Complete
            && next->Closing_save@.next_node == "__END__"@
            && next->Closing_save@.thread_id == run.thread_id@
            && next->Closing_save@.resolved_interrupt == Some(run.resolved_interrupt->0@),
{
}

/// A run that comes to a node with an interrupt before it, other than its first
/// node, does not call the node: it saves where it stands and pauses, or fails
/// where the state is too large to be saved.
pub proof fn law_interrupt_before_stops<S, N, D, C>(
    graph: GraphView<N, D, C>,
    run: SequentialRun<S>,
    now: Timestamp,
    n: u64,
    next: Next<S>,
)
    requires
        is_next(graph, run, now, n, next),
        run.entered,
        graph.interrupt_before.contains(run.node@),
        run.node@ != "__END__"@,
    ensures
        next is Paused || next is Failed,
        run.steps < graph.resource_limits.max_sequential_steps && run.state_bytes
            <= graph.resource_limits.max_checkpoint_bytes ==> next is Paused,
        run.state_bytes > graph.resource_limits.max_checkpoint_bytes ==> next is Failed,
        next matches Next::Paused { run: paused, save } ==> paused.state == run.state
            && paused.node == run.node && save@.thread_id == run.thread_id@ && save@.next_node
            == run.node@ && save@.status == CheckpointStatus::Interrupted
            && save@.yield_request is None && save@.claimed_interrupt is None,
{
}

/// A run pauses only before a node that has an interrupt before it, and never
/// before its first one.
pub proof fn law_pauses_only_at_interrupts<S, N, D, C>(
    graph: GraphView<N, D, C>,
    run: SequentialRun<S>,
    now: Timestamp,
    n: u64,
    next: Next<S>,
)
    requires
        is_next(graph, run, now, n, next),
        next is Paused,
    ensures
        run.entered,
        graph.interrupt_before.contains(run.node@),
        run.node@ != "__END__"@,
        run.state_bytes <= graph.resource_limits.max_checkpoint_bytes,
{
}

/// A node that is registered is called when a run within its step limit comes
/// to it and no interrupt stops it: with the state of the run, for the first
/// time, and under its own configuration where it has one and that of the graph
/// where it has none.
pub proof fn law_registered_nodes_are_called<S, N, D, C>(
    graph: GraphView<N, D, C>,
    run: SequentialRun<S>,
    now: Timestamp,
    n: u64,
    next: Next<S>,
)
    requires
        is_next(graph, run, now, n, next),
        run.node@ != "__END__"@,
        run.steps < graph.resource_limits.max_sequential_steps,
        !run.entered || !graph.interrupt_before.contains(run.node@),
        graph.nodes.contains_key(run.node@) || graph.dynamic_nodes.contains_key(run.node@),
    ensures
        next is Call,
        next->Call_call.run == (SequentialRun {
            steps: next->Call_call.run.steps,
            entered: true,
            ..run
        }),
        next->Call_call.run.steps == run.steps + 1,
        next->Call_call.attempt == 0,
        next->Call_call.started_at == now,
        next->Call_call.dynamic <==> graph.dynamic_nodes.contains_key(run.node@),
        graph.node_configs.contains_key(run.node@)
            && graph.node_configs[run.node@].retry_policy is Some ==> next->Call_call.retry
            == graph.node_configs[run.node@].retry_policy->0,
        !graph.node_configs.contains_key(run.node@)
            || graph.node_configs[run.node@].retry_policy is None ==> next->Call_call.retry
            == graph.retry_policy,
        graph.node_configs.contains_key(run.node@) ==> next->Call_call.timeout
            == graph.node_configs[run.node@].timeout && next->Call_call.node_budget
            == graph.node_configs[run.node@].budget_eur,
        !graph.node_configs.contains_key(run.node@) ==> next->Call_call.timeout is None
            && next->Call_call.node_budget is None,
{
}

/// A name that is not registered is reported, and only such a name is.
pub proof fn law_unknown_nodes_are_reported<S, N, D, C>(
    graph: GraphView<N, D, C>,
    run: SequentialRun<S>,
    now: Timestamp,
    n: u64,
    next: Next<S>,
)
    requires
        is_next(graph, run, now, n, next),
    ensures
        next is Call ==> graph.nodes.contains_key(run.node@)
            || graph.dynamic_nodes.contains_key(run.node@),
        next is Failed && next->Failed_0@ is NodeNotFound ==> next->Failed_0@
            == TakelnErrorView::NodeNotFound(run.node@) && !graph.nodes.contains_key(run.node@)
            && !graph.dynamic_nodes.contains_key(run.node@),
        run.node@ != "__END__"@ && run.steps < graph.resource_limits.max_sequential_steps && (
        !run.entered || !graph.interrupt_before.contains(run.node@)) && !graph.nodes.contains_key(
            run.node@,
        ) && !graph.dynamic_nodes.contains_key(run.node@) ==> next is Failed
            && next->Failed_0@ is NodeNotFound,
{
}

/// A regular node that fails retryably while attempts are left is tried again,
/// and no other failure is: the call stays the same but for the attempt.
pub proof fn law_retry_is_owed<S, N, D, C>(
    graph: GraphView<N, D, C>,
    call: NodeCall<S>,
    error: GraphErrorView,
    now: Timestamp,
    n: u64,
    after: AfterFailure<S>,
)
    requires
        is_failure(graph, call, error, now, n, after),
    ensures
        after is Retry <==> !call.dynamic && error is Retryable && call.attempt + 1
            < call.retry.max_attempts,
        after matches AfterFailure::Retry { call: again, .. } ==> again.attempt == call.attempt + 1
            && again.run == call.run && again.retry == call.retry && again.timeout == call.timeout
            && again.started_at == call.started_at && again.dynamic == call.dynamic
            && again.node_budget == call.node_budget,
{
}

/// A regular node that keeps failing retryably is called exactly as often as
/// its policy says, and once where the policy says less.
pub proof fn law_attempts_are_used_up<S, N, D, C>(
    graph: GraphView<N, D, C>,
    calls: Seq<NodeCall<S>>,
    errors: Seq<GraphErrorView>,
    times: Seq<Timestamp>,
    numbers: Seq<u64>,
    last_error: GraphErrorView,
    now: Timestamp,
    n: u64,
    after: AfterFailure<S>,
)
    requires
        are_retries(graph, calls, errors, times, numbers),
        calls[0].attempt == 0,
        !calls.last().dynamic,
        last_error is Retryable,
        is_failure(graph, calls.last(), last_error, now, n, after),
        !(after is Retry),
    ensures
        calls[0].retry.max_attempts >= 1 ==> calls.len() == calls[0].retry.max_attempts,
        calls[0].retry.max_attempts == 0 ==> calls.len() == 1,
{
    law_attempts_are_limited(graph, calls, errors, times, numbers);
    law_retry_is_owed(graph, calls.last(), last_error, now, n, after);
}

/// How a failure that is not tried again ends the run: in words for a retryable
/// or fatal error and for a yield inside a dynamic node, with the amounts for an
/// exceeded budget.
pub proof fn law_failures_end_the_run<S, N, D, C>(
    graph: GraphView<N, D, C>,
    call: NodeCall<S>,
    error: GraphErrorView,
    now: Timestamp,
    n: u64,
    after: AfterFailure<S>,
)
    requires
        is_failure(graph, call, error, now, n, after),
        !(after is Retry),
        !(error is Yield),
    ensures
        after is Failed,
        error matches GraphErrorView::Retryable(reason) ==> after->Failed_error@
            == TakelnErrorView::ExecutionError(
            "Node "@ + call.run.node@ + " failed (retryable) after max attempts: "@ + reason,
        ),
        error matches GraphErrorView::Fatal(reason) ==> after->Failed_error@
            == TakelnErrorView::ExecutionError(
            "Node "@ + call.run.node@ + " failed fatally: "@ + reason,
        ),
        error matches GraphErrorView::BudgetExceeded { spent_eur, limit_eur }
            ==> after->Failed_error@ == (TakelnErrorView::BudgetExceeded { spent_eur, limit_eur }),
        error matches GraphErrorView::YieldInDynamicNode { interrupt_id } ==> after->Failed_error@
            == TakelnErrorView::ExecutionError(
            "HITL yield inside dynamic node is not supported (node: '"@ + call.run.node@
                + "', interrupt: '"@ + interrupt_id
                + "'). Move the yielding node to a top-level graph node."@,
        ),
{
}

/// A node that yields ends the run with a checkpoint at the node, which holds
/// the request and leaves the state as it was; only a state that is too large
/// is not saved.
pub proof fn law_yields_are_saved<S, N, D, C>(
    graph: GraphView<N, D, C>,
    call: NodeCall<S>,
    error: GraphErrorView,
    now: Timestamp,
    n: u64,
    after: AfterFailure<S>,
)
    requires
        is_failure(graph, call, error, now, n, after),
    ensures
        after is Yielded <==> error is Yield && call.run.state_bytes
            <= graph.resource_limits.max_checkpoint_bytes,
        after matches AfterFailure::Yielded { step, save } ==> {
            &&& step.run == call.run
            &&& save@.thread_id == call.run.thread_id@
            &&& save@.next_node == call.run.node@
            &&& save@.status == CheckpointStatus::Yielded
            &&& save@.yield_request == Some(error->Yield_0)
            &&& save@.claimed_interrupt is None
            &&& save@.resolved_interrupt is None
        },
{
}

/// What was saved of a yield is resumed at the node that yielded, whatever the
/// crash recovery policy, and that node is the next to be called.
pub proof fn law_yielded_nodes_are_called_next<S, N, D, C: Fn(&S) -> String>(
    graph: GraphView<N, D, C>,
    call: NodeCall<S>,
    error: GraphErrorView,
    now: Timestamp,
    n: u64,
    after: AfterFailure<S>,
    meta: CheckpointMetaView,
    resumed: SequentialRun<S>,
    state_bytes: usize,
    seen: Option<Seq<char>>,
    later: Timestamp,
    m: u64,
    next: Next<S>,
)
    requires
        is_failure(graph, call, error, now, n, after),
        after matches AfterFailure::Yielded { save, .. } && meta.next_node == save@.next_node
            && meta.status == save@.status,
        is_fresh(resumed, call.run.thread_id@, call.run.state, state_bytes, seen),
        resumes_at::<S, N, D, C>(graph, call.run.state, meta, resumed.node@),
        is_next(graph, resumed, later, m, next),
        call.run.node@ != "__END__"@,
        graph.nodes.contains_key(call.run.node@) || graph.dynamic_nodes.contains_key(
            call.run.node@,
        ),
        graph.resource_limits.max_sequential_steps > 0,
    ensures
        next is Call,
        next->Call_call.run.node@ == call.run.node@,
        next->Call_call.run.state == call.run.state,
{
}

/// A node that succeeds within its own budget and that of the graph completes
/// its step where the state can be saved: the new state goes on, and what is
/// saved names the node that comes next, as interrupted where the run stops
/// after the node.
pub proof fn law_success_is_owed<S, N, D, C: Fn(&S) -> String>(
    graph: GraphView<N, D, C>,
    call: NodeCall<S>,
    output: NodeOutput<S>,
    state_bytes: usize,
    spent: Eur,
    now: Timestamp,
    n: u64,
    after: AfterSuccess<S>,
)
    requires
        is_success(graph, call, output, state_bytes, spent, now, n, after),
    ensures
        (call.node_budget is None || !(match output.meta.cost_eur {
            Some(cost) => cost,
            None => Eur { bits: 0 },
        }).above(call.node_budget->0)) && (graph.budget_eur is None || !spent.above(
            graph.budget_eur->0,
        )) && state_bytes <= graph.resource_limits.max_checkpoint_bytes ==> after is Completed,
        after matches AfterSuccess::Completed { step, save } ==> {
            &&& step.run.state == output.state
            &&& step.run.state_bytes == state_bytes
            &&& step.run.spent == spent
            &&& step.run.node == call.run.node
            &&& step.run.thread_id == call.run.thread_id
            &&& step.run.steps == call.run.steps
            &&& step.run.entered == call.run.entered
            &&& step.run.resolved_interrupt == call.run.resolved_interrupt
            &&& save@.thread_id == call.run.thread_id@
            &&& save@.next_node == step.next_node@
            &&& save@.status == CheckpointStatus::Interrupted
                <==> graph.interrupt_after.contains(call.run.node@)
            &&& save@.status == CheckpointStatus::Complete
                <==> !graph.interrupt_after.contains(call.run.node@)
            &&& save@.yield_request is None
            &&& save@.claimed_interrupt is None
            &&& call.run.resolved_interrupt is Some ==> save@.resolved_interrupt == Some(
                call.run.resolved_interrupt->0@,
            )
            &&& call.run.resolved_interrupt is None ==> save@.resolved_interrupt is None
        },
{
}

/// A step that succeeded goes to the node that its event names; without one,
/// along the edge of the node, asked about the new state; and to the end where
/// the node has no edge.
pub proof fn law_steps_follow_events_and_edges<S, N, D, C: Fn(&S) -> String>(
    graph: GraphView<N, D, C>,
    call: NodeCall<S>,
    output: NodeOutput<S>,
    state_bytes: usize,
    spent: Eur,
    now: Timestamp,
    n: u64,
    after: AfterSuccess<S>,
)
    requires
        is_success(graph, call, output, state_bytes, spent, now, n, after),
        after is Completed,
    ensures
        output.event matches Some(target) ==> after->Completed_step.next_node@ == target@,
        output.event is None && !graph.edges.contains_key(call.run.node@)
            ==> after->Completed_step.next_node@ == "__END__"@,
        output.event is None && graph.edges.contains_key(call.run.node@) ==> (match graph.edges[
        call.run.node@] {
            EdgeView::Unconditional(target) => after->Completed_step.next_node@ == target,
            EdgeView::Conditional(condition) => exists|answer: String| #[trigger]
                condition.ensures((&output.state,), answer) && answer@
                    == after->Completed_step.next_node@,
        }),
{
}

/// A budget ends a run only where what was spent is strictly above it, and then
/// it does: the budget of the node by what the node cost, that of the graph by
/// what the run has cost.
pub proof fn law_budgets_are_strict<S, N, D, C: Fn(&S) -> String>(
    graph: GraphView<N, D, C>,
    call: NodeCall<S>,
    output: NodeOutput<S>,
    state_bytes: usize,
    spent: Eur,
    now: Timestamp,
    n: u64,
    after: AfterSuccess<S>,
)
    requires
        is_success(graph, call, output, state_bytes, spent, now, n, after),
    ensures
        after is Failed && after->Failed_error@ is BudgetExceeded ==> {
            let named = after->Failed_error@;
            &&& named->BudgetExceeded_spent_eur.above(named->BudgetExceeded_limit_eur)
            &&& call.node_budget == Some(named->BudgetExceeded_limit_eur) || (graph.budget_eur
                == Some(named->BudgetExceeded_limit_eur) && named->BudgetExceeded_spent_eur
                == spent)
        },
        call.node_budget is Some && output.meta.cost_eur is Some && output.meta.cost_eur->0.above(
            call.node_budget->0,
        ) ==> after is Failed && after->Failed_error@ == (TakelnErrorView::BudgetExceeded {
            spent_eur: output.meta.cost_eur->0,
            limit_eur: call.node_budget->0,
        }),
        graph.budget_eur is Some && spent.above(graph.budget_eur->0) ==> after is Failed
            && after->Failed_error@ is BudgetExceeded,
        call.node_budget is None && graph.budget_eur is Some && spent.above(graph.budget_eur->0)
            ==> after->Failed_error@ == (TakelnErrorView::BudgetExceeded {
            spent_eur: spent,
            limit_eur: graph.budget_eur->0,
        }),
        after is Failed && !(after->Failed_error@ is BudgetExceeded) ==> state_bytes
            > graph.resource_limits.max_checkpoint_bytes,
{
}

/// After its checkpoint is saved a step goes on at the node that comes next,
/// with the state that was saved, unless the run stops after the node.
pub proof fn law_saved_steps_go_on<S, N, D, C>(
    graph: GraphView<N, D, C>,
    step: CompletedStep<S>,
    checkpoint_id: String,
    n: u64,
    after: AfterSave<S>,
)
    requires
        is_saved(graph, step, checkpoint_id, n, after),
    ensures
        after is Paused <==> graph.interrupt_after.contains(step.run.node@),
        after matches AfterSave::Paused { state, .. } ==> state == step.run.state,
        after matches AfterSave::Continue { run, .. } ==> run.node == step.next_node && run.state
            == step.run.state && run.steps == step.run.steps && run.entered == step.run.entered
            && run.spent == step.run.spent && run.state_bytes == step.run.state_bytes
            && run.thread_id == step.run.thread_id && run.last_checkpoint_id == Some(checkpoint_id)
            && run.resolved_interrupt == step.run.resolved_interrupt && run.pending_input
            == step.run.pending_input,
{
}

/// What is published of a node that started.
pub proof fn law_calls_are_announced<S, N, D, C>(
    graph: GraphView<N, D, C>,
    run: SequentialRun<S>,
    now: Timestamp,
    n: u64,
    next: Next<S>,
)
    requires
        is_next(graph, run, now, n, next),
        next is Call,
    ensures
        effect_list(next->Call_effects@) == seq![
            EffectView::Event(
                GraphEventView::NodeStarted {
                    thread_id: run.thread_id@,
                    node_name: run.node@,
                    started_at: now,
                    sequence_number: n,
                },
            ),
        ],
{
}

/// What is made known of a step that was saved, in this order: the checkpoint,
/// the span and the completion of the node, its record, and that it finished.
pub proof fn law_saved_steps_are_reported<S, N, D, C: Fn(&S) -> String>(
    graph: GraphView<N, D, C>,
    call: NodeCall<S>,
    output: NodeOutput<S>,
    state_bytes: usize,
    spent: Eur,
    now: Timestamp,
    n: u64,
    after: AfterSuccess<S>,
    checkpoint_id: String,
    m: u64,
    saved: AfterSave<S>,
    effects: Seq<EffectView>,
)
    requires
        is_success(graph, call, output, state_bytes, spent, now, n, after),
        after matches AfterSuccess::Completed { step, .. } && is_saved(
            graph,
            step,
            checkpoint_id,
            m,
            saved,
        ),
        effects == (match saved {
            AfterSave::Continue { effects, .. } => effect_list(effects@),
            AfterSave::Paused { effects, .. } => effect_list(effects@),
        }),
    ensures
        effects.len() == 5,
        effects[0] == (EffectView::CheckpointSaved {
            thread_id: call.run.thread_id@,
            checkpoint_id: checkpoint_id@,
        }),
        effects[1] is Span,
        effects[1]->Span_0.thread_id == call.run.thread_id@,
        effects[1]->Span_0.node_name == call.run.node@,
        effects[1]->Span_0.checkpoint_id == Some(checkpoint_id@),
        effects[1]->Span_0.attempt == call.attempt,
        effects[1]->Span_0.duration_ms == duration_ms(call.started_at, now),
        effects[1]->Span_0.status == SpanStatus::Success,
        effects[1]->Span_0.cost_eur == output.meta.cost_eur,
        effects[1]->Span_0.error is None,
        effects[1]->Span_0.dag_id is None,
        effects[1]->Span_0.meta == output.meta@,
        effects[2] == (EffectView::NodeComplete {
            node_name: call.run.node@,
            duration_ms: effects[1]->Span_0.duration_ms,
            status: SpanStatus::Success,
        }),
        effects[3] is Record,
        effects[3]->Record_0.node_name == call.run.node@,
        effects[3]->Record_0.started_at == call.started_at,
        effects[3]->Record_0.duration_ms == duration_ms(call.started_at, now),
        effects[3]->Record_0.checkpoint_id == Some(checkpoint_id@),
        effects[3]->Record_0.status == "success"@,
        effects[3]->Record_0.attempts == call.attempt,
        effects[3]->Record_0.cost_eur == output.meta.cost_eur,
        effects[4] == EffectView::Event(
            GraphEventView::NodeFinished {
                thread_id: call.run.thread_id@,
                node_name: call.run.node@,
                duration_ms: effects[1]->Span_0.duration_ms,
                status: "success"@,
                cost: output.meta.cost_eur,
                sequence_number: m,
            },
        ),
{
}

/// What is made known of a node that failed for good: its span with the error,
/// that it completed without success, and that it finished as failed.
pub proof fn law_failures_are_reported<S, N, D, C>(
    graph: GraphView<N, D, C>,
    call: NodeCall<S>,
    error: GraphErrorView,
    now: Timestamp,
    n: u64,
    after: AfterFailure<S>,
    effects: Seq<EffectView>,
)
    requires
        is_failure(graph, call, error, now, n, after),
        !(error is Yield),
        after is Failed,
        effects == effect_list(after->Failed_effects@),
    ensures
        effects.len() == 3,
        effects[0] is Span,
        effects[0]->Span_0.thread_id == call.run.thread_id@,
        effects[0]->Span_0.node_name == call.run.node@,
        effects[0]->Span_0.attempt == call.attempt,
        effects[0]->Span_0.duration_ms == duration_ms(call.started_at, now),
        effects[0]->Span_0.status == SpanStatus::Error,
        effects[0]->Span_0.checkpoint_id is None,
        error matches GraphErrorView::Fatal(reason) ==> effects[0]->Span_0.error == Some(
            SpanErrorView::Text(reason),
        ),
        error matches GraphErrorView::Retryable(reason) ==> effects[0]->Span_0.error == Some(
            SpanErrorView::Text(reason),
        ),
        error matches GraphErrorView::BudgetExceeded { spent_eur, limit_eur }
            ==> effects[0]->Span_0.error == Some(SpanErrorView::Budget { spent_eur, limit_eur })
            && effects[0]->Span_0.cost_eur == Some(spent_eur),
        !(error is BudgetExceeded) ==> effects[0]->Span_0.cost_eur is None,
        effects[1] == (EffectView::NodeComplete {
            node_name: call.run.node@,
            duration_ms: effects[0]->Span_0.duration_ms,
            status: SpanStatus::Error,
        }),
        effects[2] == EffectView::Event(
            GraphEventView::NodeFinished {
                thread_id: call.run.thread_id@,
                node_name: call.run.node@,
                duration_ms: effects[0]->Span_0.duration_ms,
                status: "failed"@,
                cost: None,
                sequence_number: n,
            },
        ),
{
}

/// What is made known of an attempt that is tried again: its span alone, with
/// the attempt that failed and why.
pub proof fn law_retries_are_reported<S, N, D, C>(
    graph: GraphView<N, D, C>,
    call: NodeCall<S>,
    error: GraphErrorView,
    now: Timestamp,
    n: u64,
    after: AfterFailure<S>,
)
    requires
        is_failure(graph, call, error, now, n, after),
        after is Retry,
    ensures
        effect_list(after->Retry_effects@).len() == 1,
        effect_list(after->Retry_effects@)[0] is Span,
        effect_list(after->Retry_effects@)[0]->Span_0.node_name == call.run.node@,
        effect_list(after->Retry_effects@)[0]->Span_0.thread_id == call.run.thread_id@,
        effect_list(after->Retry_effects@)[0]->Span_0.attempt == call.attempt,
        effect_list(after->Retry_effects@)[0]->Span_0.duration_ms == duration_ms(
            call.started_at,
            now,
        ),
        effect_list(after->Retry_effects@)[0]->Span_0.status == SpanStatus::Retrying,
        effect_list(after->Retry_effects@)[0]->Span_0.error == Some(
            SpanErrorView::Text(error->Retryable_0),
        ),
{
}

/// Events are numbered one after the other: what publishes `count` events takes
/// that many numbers.
pub proof fn law_events_are_numbered_in_turn(n: u64, count: nat)
    requires
        n + count <= u64::MAX,
    ensures
        numbered(n, count) == n + count,
    decreases count,
{
    if count > 0 {
        law_events_are_numbered_in_turn(n, (count - 1) as nat);
    }
}

/// What is made known at the end of a run: that the graph completed, at what it
/// cost, and that it finished.
pub proof fn law_ends_are_reported<S, N, D, C>(
    graph: GraphView<N, D, C>,
    run: SequentialRun<S>,
    now: Timestamp,
    n: u64,
    next: Next<S>,
)
    requires
        is_next(graph, run, now, n, next),
        next is Finished,
    ensures
        effect_list(next->Finished_effects@) == seq![
            EffectView::GraphComplete {
                thread_id: run.thread_id@,
                total_cost: run.spent,
                total_duration_ms: 0,
            },
            EffectView::Event(
                GraphEventView::GraphFinished {
                    thread_id: run.thread_id@,
                    cost: run.spent,
                    sequence_number: n,
                },
            ),
        ],
{
}

/// What is made known of a pause: its checkpoint.
pub proof fn law_pauses_are_reported<S>(
    run: SequentialRun<S>,
    checkpoint_id: &str,
    ended: (S, Vec<Effect>),
)
    requires
        call_ensures(SequentialRun::<S>::paused, (run, checkpoint_id), ended),
    ensures
        ended.0 == run.state,
        effect_list(ended.1@) == seq![
            EffectView::CheckpointSaved {
                thread_id: run.thread_id@,
                checkpoint_id: checkpoint_id@,
            },
        ],
{
}

/// How long a call waits: not at all before the first attempt, and before a later
/// one as long as the policy says without jitter.
pub proof fn law_calls_wait_for_their_policy<S>(
    call: NodeCall<S>,
    delay: TimeSpan,
    plain: TimeSpan,
)
    requires
        call_ensures(NodeCall::<S>::delay, (&call,), delay),
        call.attempt > 0 ==> call_ensures(
            RetryPolicy::delay_for,
            (&call.retry, (call.attempt - 1) as u8),
            plain,
        ),
    ensures
        call.attempt == 0 ==> delay.secs == 0 && delay.nanos == 0,
        call.attempt > 0 && !call.retry.jitter ==> delay.secs == plain.secs && delay.nanos
            == plain.nanos,
{
}

/// What is made known of a yield that was saved: the checkpoint, the span with
/// it, and that the node finished as yielded; a yield is no completion.
pub proof fn law_yields_are_reported<S, N, D, C>(
    graph: GraphView<N, D, C>,
    call: NodeCall<S>,
    error: GraphErrorView,
    now: Timestamp,
    n: u64,
    after: AfterFailure<S>,
    checkpoint_id: Seq<char>,
    m: u64,
    effects: Seq<EffectView>,
)
    requires
        is_failure(graph, call, error, now, n, after),
        after is Yielded,
        effects == step_reported(
            after->Yielded_step.report@,
            Some(checkpoint_id),
            "yielded"@,
            None,
            m,
        ),
    ensures
        effects.len() == 3,
        effects[0] == (EffectView::CheckpointSaved {
            thread_id: call.run.thread_id@,
            checkpoint_id,
        }),
        effects[1] is Span,
        effects[1]->Span_0.node_name == call.run.node@,
        effects[1]->Span_0.checkpoint_id == Some(checkpoint_id),
        effects[1]->Span_0.status == SpanStatus::Cancelled,
        effects[1]->Span_0.attempt == call.attempt,
        effects[1]->Span_0.duration_ms == duration_ms(call.started_at, now),
        effects[1]->Span_0.error == Some(SpanErrorView::Text(error->Yield_0.message)),
        effects[2] == EffectView::Event(
            GraphEventView::NodeFinished {
                thread_id: call.run.thread_id@,
                node_name: call.run.node@,
                duration_ms: duration_ms(call.started_at, now),
                status: "yielded"@,
                cost: None,
                sequence_number: m,
            },
        ),
{
}

/// A node that took too long fails for good, and one that was cancelled yields.
pub proof fn law_overdue_and_cancelled_nodes(
    node: &str,
    timeout: TimeSpan,
    overdue: GraphError,
    cancelled: GraphError,
)
    requires
        timeout.wf(),
        call_ensures(timeout_error, (node, timeout), overdue),
        call_ensures(cancelled_error, (), cancelled),
    ensures
        overdue@ == GraphErrorView::Fatal(
            "Node '"@ + node@ + "' timed out after "@ + duration_debug(
                timeout.secs,
                timeout.nanos,
            ),
        ),
        cancelled@ is Yield,
        cancelled@->Yield_0.interrupt_id == "Cancelled"@,
        cancelled@->Yield_0.schema is None,
        cancelled@->Yield_0.resume_mode == ResumeMode::ReEntry,
{
}

/// What a state that is too large is answered: its size and the limit.
pub proof fn law_large_states_are_refused<S, N, D, C>(
    graph: GraphView<N, D, C>,
    run: SequentialRun<S>,
    now: Timestamp,
    n: u64,
    next: Next<S>,
)
    requires
        is_next(graph, run, now, n, next),
        run.steps < graph.resource_limits.max_sequential_steps,
        run.entered,
        run.node@ != "__END__"@,
        graph.interrupt_before.contains(run.node@),
        run.state_bytes > graph.resource_limits.max_checkpoint_bytes,
    ensures
        next is Failed,
        next->Failed_0@ == TakelnErrorView::ExecutionError(
            "Checkpoint payload "@ + decimal(run.state_bytes as nat)
                + " bytes exceeds max_checkpoint_bytes limit of "@ + decimal(
                graph.resource_limits.max_checkpoint_bytes as nat,
            ),
        ),
{
}

/// How many numbers a phase takes: one for each event that it publishes.
pub proof fn law_phases_take_a_number_for_each_event<S>(
    next: Next<S>,
    failure: AfterFailure<S>,
    success: AfterSuccess<S>,
)
    ensures
        next_events(next) == if next is Finished || next is Call {
            1nat
        } else {
            0nat
        },
        failure_events(failure) == if failure is Failed {
            1nat
        } else {
            0nat
        },
        success_events(success) == if success is Failed {
            1nat
        } else {
            0nat
        },
{
}

/// What is made known of a node that succeeded but ends the run: over a budget it
/// is made known as failed, with the amounts; with a state that is too large as
/// succeeded, without a checkpoint.
pub proof fn law_ended_successes_are_reported<S, N, D, C: Fn(&S) -> String>(
    graph: GraphView<N, D, C>,
    call: NodeCall<S>,
    output: NodeOutput<S>,
    state_bytes: usize,
    spent: Eur,
    now: Timestamp,
    n: u64,
    after: AfterSuccess<S>,
    effects: Seq<EffectView>,
)
    requires
        is_success(graph, call, output, state_bytes, spent, now, n, after),
        after is Failed,
        effects == effect_list(after->Failed_effects@),
    ensures
        effects[0] is Span,
        effects[0]->Span_0.node_name == call.run.node@,
        effects[0]->Span_0.thread_id == call.run.thread_id@,
        effects[0]->Span_0.attempt == call.attempt,
        effects[0]->Span_0.checkpoint_id is None,
        after->Failed_error@ is BudgetExceeded ==> {
            let named = after->Failed_error@;
            &&& effects.len() == 3
            &&& effects[0]->Span_0.status == SpanStatus::Error
            &&& effects[0]->Span_0.error == Some(
                SpanErrorView::Budget {
                    spent_eur: named->BudgetExceeded_spent_eur,
                    limit_eur: named->BudgetExceeded_limit_eur,
                },
            )
            &&& effects[1] == (EffectView::NodeComplete {
                node_name: call.run.node@,
                duration_ms: duration_ms(call.started_at, now),
                status: SpanStatus::Error,
            })
            &&& effects[2] == EffectView::Event(
                GraphEventView::NodeFinished {
                    thread_id: call.run.thread_id@,
                    node_name: call.run.node@,
                    duration_ms: duration_ms(call.started_at, now),
                    status: "failed"@,
                    cost: output.meta.cost_eur,
                    sequence_number: n,
                },
            )
        },
        !(after->Failed_error@ is BudgetExceeded) ==> effects[0]->Span_0.status
            == SpanStatus::Success && effects[1] == (EffectView::NodeComplete {
            node_name: call.run.node@,
            duration_ms: duration_ms(call.started_at, now),
            status: SpanStatus::Success,
        }),
{
}

} // verus!
