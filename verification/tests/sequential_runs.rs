//! Sequential runs, driven step by step.
use std::cell::{Cell, RefCell};
use std::rc::Rc;
use takeln::clock::now;
use takeln::dynamic::{child_context, child_state, ChildRunner};
use takeln::effects::Effect;
use takeln::emitter::{LogLevel, SpanError};
use takeln::graph::EventSequence;
use takeln::history::ExecutionHistory;
use takeln::hitl::compute_response_hash;
use takeln::resume::{
    plan_resume, plan_resume_with_input, plan_run, rollback_error, InputPlan, YieldedCheckpoint,
};
use takeln::sequential::{
    cancelled_error, timeout_error, AfterFailure, AfterSave, AfterSuccess, Next, NodeCall, SequentialRun,
};
use takeln::{
    CheckpointStatus, CrashRecoveryPolicy, Eur, FnNode, Graph, GraphError, GraphEvent, InMemoryCheckpointer,
    JsonNumber, JsonValue, NodeConfig, NodeContext, NodeMeta, NodeOutput, ResourceLimits, ResumeContext,
    ResumeMode, RetentionPolicy, RetryPolicy, SaveRequest, SpanContext, SpanStatus, TakelnError, TimeSpan, Timestamp, TracingEmitter, YieldRequest,
};

#[derive(Clone, Default, Debug, PartialEq)]
struct TestState {
    value: String,
    logs: Vec<String>,
}

type Outcome = Result<NodeOutput<TestState>, GraphError>;

/// A node: what it does, and how long it takes.
struct TestNode {
    call: Box<dyn Fn(&NodeContext, TestState) -> Outcome>,
    takes_ms: u64,
}

type Dynamic = Box<dyn Fn(&NodeContext, TestState) -> Outcome>;
type Condition = Box<dyn Fn(&TestState) -> String>;
type TestGraph = Graph<TestNode, Dynamic, Condition>;

fn node(call: impl Fn(&NodeContext, TestState) -> Outcome + 'static) -> TestNode {
    TestNode { call: Box::new(call), takes_ms: 0 }
}

fn append(suffix: &'static str) -> TestNode {
    node(move |_, mut state| {
        state.value.push_str(suffix);
        state.logs.push(suffix.to_string());
        Ok(NodeOutput::bare(state))
    })
}

fn fails(error: fn() -> GraphError) -> TestNode {
    node(move |_, _| Err(error()))
}

fn eur(amount: f64) -> Eur {
    Eur { bits: amount.to_bits() }
}

fn costs(amount: f64) -> TestNode {
    node(move |_, state| {
        Ok(NodeOutput { state, event: None, meta: NodeMeta { cost_eur: Some(eur(amount)), ..NodeMeta::default() } })
    })
}

/// The size of a state as a JSON object.
fn bytes(state: &TestState) -> usize {
    let logs: usize = state.logs.iter().map(|l| l.len() + 3).sum();
    r#"{"value":"","logs":[]}"#.len() + state.value.len() + logs.saturating_sub(1)
}

/// What surrounds a graph: a store, a history, and the effects of its runs.
struct World {
    graph: TestGraph,
    store: InMemoryCheckpointer<TestState>,
    events: EventSequence,
    history: ExecutionHistory,
    effects: Vec<Effect>,
    delays: Vec<TimeSpan>,
    cancelled: bool,
    save_fails: bool,
    resumed: Vec<takeln::ResumeRecord>,
}

impl World {
    fn new(graph: TestGraph) -> World {
        World {
            graph,
            store: InMemoryCheckpointer::new(),
            events: EventSequence::new(),
            history: ExecutionHistory::new(),
            effects: vec![],
            delays: vec![],
            cancelled: false,
            save_fails: false,
            resumed: vec![],
        }
    }

    fn act(&mut self, effects: Vec<Effect>) {
        for effect in effects {
            if let Effect::Record(record) = &effect {
                self.history.record(record.clone(), self.graph.limits().max_execution_records);
            }
            self.effects.push(effect);
        }
    }

    fn save(&mut self, save: SaveRequest, state: TestState) -> Result<String, TakelnError> {
        if self.save_fails {
            return Err(TakelnError::CheckpointError("disk full".into()));
        }
        Ok(self.store.save_state(
            &save.thread_id,
            state,
            save.next_node,
            None,
            save.status,
            save.yield_request,
            save.claimed_interrupt,
            save.resolved_interrupt,
        ))
    }

    fn call(&self, call: &mut NodeCall<TestState>) -> Outcome {
        let remaining = self.graph.budget().map(|b| eur(f64::from_bits(b.bits) - f64::from_bits(call.run.spent.bits)));
        let ctx = call.context(remaining, None);
        let state = call.run.state.clone();
        if call.dynamic {
            return (self.graph.dynamic_node(&call.run.node).unwrap())(&ctx, state);
        }
        if self.cancelled {
            return Err(cancelled_error());
        }
        let node = self.graph.node(&call.run.node).unwrap();
        if let Some(timeout) = call.timeout {
            if node.takes_ms > timeout.secs * 1000 + (timeout.nanos / 1_000_000) as u64 {
                return Err(timeout_error(&call.run.node, timeout));
            }
        }
        (node.call)(&ctx, state)
    }

    fn drive(&mut self, mut run: SequentialRun<TestState>) -> Result<TestState, TakelnError> {
        loop {
            let mut call = match run.step(&self.graph, now(), &mut self.events) {
                Next::Failed(error) => return Err(error),
                Next::Finished { state, effects } => {
                    self.act(effects);
                    return Ok(state);
                }
                Next::Paused { run, save } => {
                    let id = self.save(save, run.state.clone())?;
                    let (state, effects) = run.paused(&id);
                    self.act(effects);
                    return Ok(state);
                }
                Next::Closing { run, save } => {
                    let id = self.save(save, run.state.clone())?;
                    let (state, effects) = run.closed(&id, &mut self.events);
                    self.act(effects);
                    return Ok(state);
                }
                Next::Call { call, effects } => {
                    self.act(effects);
                    call
                }
            };
            let step = loop {
                match self.call(&mut call) {
                    Ok(output) => {
                        let cost = output.meta.cost_eur.map_or(0.0, |c| f64::from_bits(c.bits));
                        let spent = eur(f64::from_bits(call.run.spent.bits) + cost);
                        let size = bytes(&output.state);
                        match call.succeed(output, size, spent, now(), &self.graph, &mut self.events) {
                            AfterSuccess::Failed { error, effects } => {
                                self.act(effects);
                                return Err(error);
                            }
                            AfterSuccess::Completed { step, save } => break (step, save),
                        }
                    }
                    Err(error) => match call.fail(error, now(), &self.graph, &mut self.events) {
                        AfterFailure::Retry { call: again, effects } => {
                            self.act(effects);
                            self.delays.push(again.delay());
                            call = again;
                        }
                        AfterFailure::Failed { error, effects } => {
                            self.act(effects);
                            return Err(error);
                        }
                        AfterFailure::Yielded { step, save } => {
                            return match self.save(save, step.run.state.clone()) {
                                Ok(id) => {
                                    let (state, effects) = step.saved(id, &mut self.events);
                                    self.act(effects);
                                    Ok(state)
                                }
                                Err(error) => {
                                    let effects = step.not_saved(&mut self.events);
                                    self.act(effects);
                                    Err(error)
                                }
                            };
                        }
                    },
                }
            };
            let (step, save) = step;
            let id = match self.save(save, step.run.state.clone()) {
                Ok(id) => id,
                Err(error) => {
                    let effects = step.not_saved(&mut self.events);
                    self.act(effects);
                    return Err(error);
                }
            };
            match step.saved(id, &self.graph, &mut self.events) {
                AfterSave::Paused { state, effects } => {
                    self.act(effects);
                    return Ok(state);
                }
                AfterSave::Continue { run: next, effects } => {
                    self.act(effects);
                    run = next;
                }
            }
        }
    }

    fn run(&mut self, thread: &str, state: TestState, start: &str) -> Result<TestState, TakelnError> {
        let size = bytes(&state);
        let history = self.store.list_checkpoints(thread);
        self.drive(plan_run(thread, state, size, start, &history))
    }

    fn resume(&mut self, thread: &str) -> Result<Option<TestState>, TakelnError> {
        let loaded = self.store.load_state(thread).map(|(state, meta, _)| (state.clone(), meta));
        let size = loaded.as_ref().map_or(0, |(state, _)| bytes(state));
        let history = self.store.list_checkpoints(thread);
        match plan_resume(&self.graph, thread, loaded, &history, size)? {
            None => Ok(None),
            Some(run) => self.drive(run).map(Some),
        }
    }

    /// Claims an interrupt and plans its resume.
    fn plan_input(&mut self, thread: &str, interrupt: &str, input: JsonValue) -> Result<InputPlan<TestState>, TakelnError> {
        let claim = self.store.claim_interrupt(thread, interrupt)?;
        let history = self.store.list_checkpoints(thread);
        let loaded = self.store.load_state(thread).map(|(state, meta, _)| YieldedCheckpoint {
            state: state.clone(),
            backup: state.clone(),
            state_bytes: bytes(state),
            meta,
            history,
        });
        plan_resume_with_input(&self.graph, thread, interrupt, input, claim, loaded)
    }

    /// Drives a planned resume, and undoes it where it fails.
    fn finish_input(
        &mut self,
        plan: InputPlan<TestState>,
        context: ResumeContext,
    ) -> Result<Option<TestState>, TakelnError> {
        let (run, point) = match plan {
            InputPlan::Completed(state) => return Ok(Some(state)),
            InputPlan::Run { run, point } => (run, point),
        };
        match self.drive(run) {
            Ok(state) => {
                let (record, execution) = point.completed(&context, now());
                self.resumed.push(record);
                self.history.record(execution, self.graph.limits().max_execution_records);
                Ok(Some(state))
            }
            Err(error) => {
                let save = point.rollback();
                match self.save(save, point.backup.clone()) {
                    Ok(id) => {
                        let effects = point.rolled_back(&id);
                        self.act(effects);
                        Err(error)
                    }
                    Err(failure) => Err(rollback_error(&error.message(), &failure.message())),
                }
            }
        }
    }

    fn resume_with_input(
        &mut self,
        thread: &str,
        interrupt: &str,
        input: JsonValue,
        context: ResumeContext,
    ) -> Result<Option<TestState>, TakelnError> {
        let plan = self.plan_input(thread, interrupt, input)?;
        self.finish_input(plan, context)
    }

    fn spans(&self) -> Vec<&SpanContext> {
        self.effects
            .iter()
            .filter_map(|e| match e {
                Effect::Span(span) => Some(span),
                _ => None,
            })
            .collect()
    }

    fn completed(&self) -> Vec<(&str, SpanStatus)> {
        self.effects
            .iter()
            .filter_map(|e| match e {
                Effect::NodeComplete { node_name, status, .. } => Some((node_name.as_str(), *status)),
                _ => None,
            })
            .collect()
    }

    fn saved_ids(&self) -> Vec<&str> {
        self.effects
            .iter()
            .filter_map(|e| match e {
                Effect::CheckpointSaved { checkpoint_id, .. } => Some(checkpoint_id.as_str()),
                _ => None,
            })
            .collect()
    }

    fn listed_ids(&self, thread: &str) -> Vec<String> {
        self.store.list_checkpoints(thread).into_iter().map(|m| m.checkpoint_id).collect()
    }

    fn published(&self) -> Vec<&GraphEvent> {
        self.effects
            .iter()
            .filter_map(|e| match e {
                Effect::Event(event) => Some(event),
                _ => None,
            })
            .collect()
    }
}

/// A graph A -> B -> end.
fn chain() -> TestGraph {
    let mut graph = TestGraph::new();
    graph.add_node("A", append("A"));
    graph.add_node("B", append("B"));
    graph.add_edge("A", "B");
    graph.add_edge("B", "__END__");
    graph
}

fn yes() -> JsonValue {
    JsonValue::String("yes".to_string())
}

// ── Chains, checkpoints, interrupts ─────────────────────────────────────────

#[test]
fn test_dag_linear_execution() {
    let mut world = World::new(chain());
    let final_state = world.run("thread_linear", TestState::default(), "A").unwrap();
    assert_eq!(final_state.value, "AB");
    assert_eq!(final_state.logs, vec!["A", "B"]);
}

#[test]
fn test_graph_builder() {
    let graph = TestGraph::builder()
        .node("A", append("A"))
        .node("B", append("B"))
        .edge("A", "B")
        .edge("B", "__END__")
        .build();
    let state = World::new(graph).run("thread_builder", TestState::default(), "A").unwrap();
    assert_eq!(state.value, "AB");
}

#[test]
fn test_fn_node() {
    let transform = FnNode::new(|mut state: TestState| {
        state.value.push_str("_fn");
        Ok(NodeOutput::bare(state))
    });
    let mut graph = TestGraph::new();
    graph.add_node("transform", node(move |_, state| (transform.function())(state)));
    graph.add_edge("transform", "__END__");
    let start = TestState { value: "start".to_string(), ..Default::default() };
    let state = World::new(graph).run("thread_fn", start, "transform").unwrap();
    assert_eq!(state.value, "start_fn");
}

fn yielding_chain() -> TestGraph {
    let mut graph = chain();
    graph.add_node("B", fails(|| GraphError::Yield(YieldRequest::simple("interrupted"))));
    graph
}

#[test]
fn test_checkpoint_save_and_resume() {
    let mut world = World::new(yielding_chain());
    world.run("thread_resume", TestState::default(), "A").unwrap();

    let (loaded_state, meta, _) = world.store.load_state("thread_resume").unwrap();
    assert_eq!(loaded_state.value, "A");
    assert_eq!(meta.next_node, "B");
    assert_eq!(meta.status, CheckpointStatus::Yielded);
    let loaded_state = loaded_state.clone();

    let mut resume_graph = TestGraph::new();
    resume_graph.add_node("B", append("B"));
    resume_graph.add_edge("B", "__END__");
    world.graph = resume_graph;
    let final_state = world.run("thread_resume", loaded_state, &meta.next_node).unwrap();
    assert_eq!(final_state.value, "AB");
}

#[test]
fn test_first_class_resumption_api() {
    let mut world = World::new(yielding_chain());
    // 1. Initial sequential execution halts at B
    let res = world.run("thread_resume_api", TestState::default(), "A").unwrap();
    assert_eq!(res.value, "A");

    // 2. Resume, substituting B with a successful node
    let mut resume_graph = TestGraph::new();
    resume_graph.add_node("B", append("B"));
    resume_graph.add_edge("B", "__END__");
    world.graph = resume_graph;
    let final_state = world.resume("thread_resume_api").unwrap().unwrap();
    assert_eq!(final_state.value, "AB");
    assert_eq!(world.resume("nobody").unwrap(), None);
}

#[test]
fn test_declarative_interrupt_before() {
    let mut graph = chain();
    graph.add_interrupt_before("B");
    let mut world = World::new(graph);
    let final_state = world.run("thread_interrupt_before", TestState::default(), "A").unwrap();
    assert_eq!(final_state.value, "A");
    assert_eq!(final_state.logs, vec!["A"]);

    let (saved_state, meta, _) = world.store.load_state("thread_interrupt_before").unwrap();
    assert_eq!(saved_state.value, "A");
    assert_eq!(meta.next_node, "B");
    assert_eq!(meta.status, CheckpointStatus::Interrupted);
    let saved_state = saved_state.clone();
    // Paused runs do not finish, but their checkpoints are reported.
    assert_eq!(world.saved_ids(), world.listed_ids("thread_interrupt_before"));
    assert!(!world.published().iter().any(|e| matches!(e, GraphEvent::GraphFinished { .. })));

    // Resuming from B should bypass interrupt on the first step
    let final_resumed_state = world.run("thread_interrupt_before", saved_state, &meta.next_node).unwrap();
    assert_eq!(final_resumed_state.value, "AB");
    assert_eq!(final_resumed_state.logs, vec!["A", "B"]);
}

#[test]
fn test_declarative_interrupt_after() {
    let mut graph = chain();
    graph.add_interrupt_after("A");
    let mut world = World::new(graph);
    let final_state = world.run("thread_interrupt_after", TestState::default(), "A").unwrap();
    assert_eq!(final_state.value, "A");
    assert_eq!(final_state.logs, vec!["A"]);

    let (saved_state, meta, _) = world.store.load_state("thread_interrupt_after").unwrap();
    assert_eq!(saved_state.value, "A");
    assert_eq!(meta.next_node, "B");
    assert_eq!(meta.status, CheckpointStatus::Interrupted);
    assert_eq!(world.resume("thread_interrupt_after").unwrap().unwrap().value, "AB");
}

#[test]
fn test_missing_node_error() {
    let err = World::new(TestGraph::new()).run("thread_missing", TestState::default(), "NonExistent").unwrap_err();
    assert!(matches!(err, TakelnError::NodeNotFound(name) if name == "NonExistent"));
}

#[test]
fn events_and_conditions_route() {
    let mut graph = TestGraph::new();
    graph.add_node("start", node(|_, state| Ok(NodeOutput::bare(state).with_event("loop"))));
    graph.add_node("loop", append("x"));
    graph.add_node("done", append("!"));
    graph.add_edge("start", "nowhere");
    graph.add_conditional_edge(
        "loop",
        Box::new(|state: &TestState| if state.value.len() < 3 { "loop".into() } else { "done".into() }),
    );
    let state = World::new(graph).run("t", TestState::default(), "start").unwrap();
    assert_eq!(state.value, "xxx!");
}

#[test]
fn endless_loops_hit_the_step_limit() {
    let mut graph = TestGraph::new();
    graph.add_node("A", append("a"));
    graph.add_edge("A", "A");
    graph.set_resource_limits(ResourceLimits::default().with_max_sequential_steps(5));
    let mut world = World::new(graph);
    match world.run("t", TestState::default(), "A") {
        Err(TakelnError::StepLimitExceeded { steps, limit }) => assert_eq!((steps, limit), (5, 5)),
        other => panic!("{:?}", other),
    }
    assert_eq!(world.store.load_state("t").unwrap().0.value, "aaaaa");
    // Reaching the end takes a step too.
    let mut graph = chain();
    graph.set_resource_limits(ResourceLimits::default().with_max_sequential_steps(2));
    assert!(matches!(
        World::new(graph).run("t", TestState::default(), "A"),
        Err(TakelnError::StepLimitExceeded { steps: 2, limit: 2 })
    ));
}

#[test]
fn test_concurrent_thread_isolation() {
    let mut world = World::new(chain());
    for t in 0..10 {
        let result = world.run(&format!("thread_{}", t), TestState::default(), "A").unwrap();
        assert_eq!(result.value, "AB");
    }
    for t in 0..10 {
        let loaded = world.store.load_state(&format!("thread_{}", t));
        assert_eq!(loaded.unwrap().0.value, "AB");
    }
}

// ── Events, spans, metrics, history ─────────────────────────────────────────

#[test]
fn test_event_streaming() {
    let mut world = World::new(chain());
    world.run("thread_events", TestState::default(), "A").unwrap();
    let events = world.published();
    assert!(events.len() >= 3);
    let has_started_a =
        events.iter().any(|e| matches!(e, GraphEvent::NodeStarted { node_name, .. } if node_name == "A"));
    assert!(has_started_a);
    let has_finished_a =
        events.iter().any(|e| matches!(e, GraphEvent::NodeFinished { node_name, .. } if node_name == "A"));
    assert!(has_finished_a);
    assert!(events.iter().any(|e| matches!(e, GraphEvent::GraphFinished { .. })));
}

#[test]
fn test_event_sequence_numbers() {
    let mut world = World::new(chain());
    world.run("thread_seq_nums", TestState::default(), "A").unwrap();
    let seq_numbers: Vec<u64> = world
        .published()
        .iter()
        .map(|e| match e {
            GraphEvent::NodeStarted { sequence_number, .. } => *sequence_number,
            GraphEvent::NodeFinished { sequence_number, .. } => *sequence_number,
            GraphEvent::GraphFinished { sequence_number, .. } => *sequence_number,
        })
        .collect();
    // start A, finish A, start B, finish B, graph finished
    assert!(seq_numbers.len() >= 5);
    for pair in seq_numbers.windows(2) {
        assert!(pair[0] < pair[1], "Sequence numbers must be strictly increasing: {} >= {}", pair[0], pair[1]);
    }
    assert_eq!(seq_numbers, vec![0, 1, 2, 3, 4]);
}

#[test]
fn test_tracing_emitter_compiles() {
    let mut graph = TestGraph::new();
    graph.add_node("A", append("A"));
    graph.add_edge("A", "__END__");
    let mut world = World::new(graph);
    let state = world.run("thread_tracing", TestState::default(), "A").unwrap();
    assert_eq!(state.value, "A");
    let spans: Vec<&str> = world
        .effects
        .iter()
        .filter_map(|e| match e {
            Effect::Span(span) => Some(TracingEmitter.message(span)),
            _ => None,
        })
        .collect();
    assert_eq!(spans, vec!["Node completed successfully"]);
}

#[test]
fn test_metrics_hook_fires() {
    let mut world = World::new(chain());
    world.run("thread_metrics", TestState::default(), "A").unwrap();
    let count = |pick: fn(&Effect) -> bool| world.effects.iter().filter(|e| pick(e)).count();
    assert_eq!(count(|e| matches!(e, Effect::NodeComplete { status: SpanStatus::Success, .. })), 2);
    assert_eq!(count(|e| matches!(e, Effect::GraphComplete { total_duration_ms: 0, .. })), 1);
    // A->B->END means 2 save_state calls (after A, after B)
    assert!(count(|e| matches!(e, Effect::CheckpointSaved { .. })) >= 2);
}

#[test]
fn test_execution_history() {
    let mut world = World::new(chain());
    world.run("thread_history", TestState::default(), "A").unwrap();
    let history = world.history.execution_history();
    assert_eq!(history.len(), 2);
    assert_eq!(history[0].node_name, "A");
    assert_eq!(history[1].node_name, "B");
    assert_eq!(history[0].status, "success");
    assert_eq!(history[1].status, "success");
}

#[test]
fn effects_come_in_order() {
    let mut graph = TestGraph::new();
    graph.add_node("A", append("A"));
    let mut world = World::new(graph);
    world.run("t", TestState::default(), "A").unwrap();
    let names: Vec<&str> = world
        .effects
        .iter()
        .map(|e| match e {
            Effect::Event(GraphEvent::NodeStarted { .. }) => "started",
            Effect::Event(GraphEvent::NodeFinished { .. }) => "finished",
            Effect::Event(GraphEvent::GraphFinished { .. }) => "graph finished",
            Effect::Span(_) => "span",
            Effect::NodeComplete { .. } => "node complete",
            Effect::GraphComplete { .. } => "graph complete",
            Effect::CheckpointSaved { .. } => "checkpoint saved",
            Effect::Record(_) => "record",
        })
        .collect();
    assert_eq!(
        names,
        vec![
            "started",
            "checkpoint saved",
            "span",
            "node complete",
            "record",
            "finished",
            "graph complete",
            "graph finished"
        ]
    );
}

#[test]
fn spans_and_records_name_their_checkpoint() {
    let mut world = World::new(chain());
    world.run("t", TestState::default(), "A").unwrap();
    let ids = world.listed_ids("t");
    assert_eq!(ids.len(), 2);
    let spans: Vec<Option<String>> = world.spans().iter().map(|s| s.checkpoint_id.clone()).collect();
    let history = world.history.execution_history();
    let records: Vec<Option<String>> = history.into_iter().map(|r| r.checkpoint_id).collect();
    let named: Vec<Option<String>> = ids.iter().cloned().map(Some).collect();
    assert_eq!(spans, named);
    assert_eq!(records, named);
    assert_eq!(world.saved_ids(), ids);
    assert!(world.spans().iter().all(|s| s.dag_id.is_none()));
}

#[test]
fn steps_that_cannot_be_saved_are_reported() {
    let mut world = World::new(chain());
    world.save_fails = true;
    assert!(world.run("t", TestState::default(), "A").is_err());
    assert_eq!(world.completed(), vec![("A", SpanStatus::Success)]);
    assert_eq!(world.spans()[0].checkpoint_id, None);
    assert_eq!(world.history.execution_history()[0].checkpoint_id, None);
    assert!(world.saved_ids().is_empty());
    let mut world = World::new(yielding_chain());
    world.save_fails = true;
    assert!(world.run("t", TestState::default(), "B").is_err());
    assert_eq!(world.spans()[0].status, SpanStatus::Cancelled);
    assert!(matches!(
        world.effects.last(),
        Some(Effect::Event(GraphEvent::NodeFinished { status, .. })) if status == "yielded"
    ));
}

#[test]
fn yields_are_reported_with_their_checkpoint() {
    let mut world = World::new(yielding_chain());
    world.run("t", TestState::default(), "A").unwrap();
    let ids = world.listed_ids("t");
    assert_eq!(world.saved_ids(), ids);
    let spans = world.spans();
    assert_eq!(spans[1].status, SpanStatus::Cancelled);
    assert_eq!(spans[1].checkpoint_id.as_deref(), Some(ids[1].as_str()));
    assert!(matches!(&spans[1].error, Some(SpanError::Text(text)) if text == "interrupted"));
    // A yield completes nothing.
    assert_eq!(world.completed(), vec![("A", SpanStatus::Success)]);
}

#[test]
fn successes_are_logged_as_information_and_all_else_as_warnings() {
    let mut graph = chain();
    let attempts = Rc::new(Cell::new(0));
    graph.add_node("A", flaky(&attempts));
    graph.add_node("B", fails(|| GraphError::Fatal("boom".into())));
    graph.set_retry_policy(quick(3));
    let mut world = World::new(graph);
    let _ = world.run("t", TestState::default(), "A");
    let logged: Vec<(LogLevel, &str)> =
        world.spans().iter().map(|s| (TracingEmitter.level(s), TracingEmitter.message(s))).collect();
    assert_eq!(
        logged,
        vec![
            (LogLevel::Warn, "Node retrying"),
            (LogLevel::Warn, "Node retrying"),
            (LogLevel::Info, "Node completed successfully"),
            (LogLevel::Warn, "Node failed"),
        ]
    );
}

#[test]
fn nodes_see_the_checkpoint_before_them() {
    let seen = Rc::new(RefCell::new(vec![]));
    let mut graph = chain();
    for name in ["A", "B"] {
        let seen = seen.clone();
        graph.add_node(
            name,
            node(move |ctx, state| {
                seen.borrow_mut().push((ctx.node_name.clone(), ctx.last_checkpoint_id.clone()));
                Ok(NodeOutput::bare(state))
            }),
        );
    }
    let mut world = World::new(graph);
    world.run("t", TestState::default(), "A").unwrap();
    let first = world.store.list_checkpoints("t")[0].checkpoint_id.clone();
    assert_eq!(*seen.borrow(), vec![("A".to_string(), None), ("B".to_string(), Some(first))]);
}

// ── Retries, failures, timeouts ─────────────────────────────────────────────

fn flaky(attempts: &Rc<Cell<u8>>) -> TestNode {
    let attempts = attempts.clone();
    node(move |_, mut state| {
        let prev = attempts.get();
        attempts.set(prev + 1);
        state.logs.push(format!("attempt_{}", prev));
        if prev < 2 {
            Err(GraphError::Retryable("try again".to_string()))
        } else {
            state.value = "success".to_string();
            Ok(NodeOutput::bare(state))
        }
    })
}

fn quick(max_attempts: u8) -> RetryPolicy {
    RetryPolicy { max_attempts, base_delay_ms: 1, jitter: false, ..Default::default() }
}

#[test]
fn test_sequential_retry_success() {
    let attempts = Rc::new(Cell::new(0));
    let mut graph = TestGraph::new();
    graph.add_node("A", flaky(&attempts));
    graph.set_retry_policy(quick(3));
    let mut world = World::new(graph);
    let final_state = world.run("thread_retry_seq", TestState::default(), "A").unwrap();
    assert_eq!(final_state.value, "success");
    assert_eq!(attempts.get(), 3);
    assert_eq!(world.delays, vec![TimeSpan::from_millis(1), TimeSpan::from_millis(2)]);
    let spans: Vec<(SpanStatus, u8)> = world
        .effects
        .iter()
        .filter_map(|e| match e {
            Effect::Span(span) => Some((span.status, span.attempt)),
            _ => None,
        })
        .collect();
    assert_eq!(spans, vec![(SpanStatus::Retrying, 0), (SpanStatus::Retrying, 1), (SpanStatus::Success, 2)]);
    assert_eq!(world.history.execution_history()[0].attempts, 2);
}

#[test]
fn test_sequential_retry_failure() {
    let attempts = Rc::new(Cell::new(0));
    let mut graph = TestGraph::new();
    graph.add_node("A", flaky(&attempts));
    graph.set_retry_policy(quick(2));
    let mut world = World::new(graph);
    let err = world.run("thread_retry_fail", TestState::default(), "A").unwrap_err();
    assert!(matches!(&err, TakelnError::ExecutionError(_)));
    assert_eq!(attempts.get(), 2);
    assert_eq!(
        err.message(),
        "Execution error: Node A failed (retryable) after max attempts: try again"
    );
    assert!(world.store.load_state("thread_retry_fail").is_none());
    assert_eq!(world.completed(), vec![("A", SpanStatus::Error)]);
    match world.effects.last() {
        Some(Effect::Event(GraphEvent::NodeFinished { status, cost, .. })) => {
            assert_eq!(status, "failed");
            assert!(cost.is_none());
        }
        other => panic!("{:?}", other),
    }
}

#[test]
fn test_per_node_retry_override() {
    // Graph has max_attempts: 1, node "A" has per-node max_attempts: 3
    let attempts = Rc::new(Cell::new(0));
    let mut graph = TestGraph::new();
    graph.add_node_with_config(
        "A",
        flaky(&attempts),
        NodeConfig { retry_policy: Some(quick(3)), ..Default::default() },
    );
    graph.add_edge("A", "__END__");
    graph.set_retry_policy(quick(1));
    let final_state = World::new(graph).run("thread_per_node_retry", TestState::default(), "A").unwrap();
    assert_eq!(final_state.value, "success");
    assert_eq!(attempts.get(), 3);
}

#[test]
fn test_per_node_timeout() {
    let mut graph = TestGraph::new();
    let slow = TestNode { takes_ms: 200, ..append("slow") };
    graph.add_node_with_config(
        "A",
        slow,
        NodeConfig { timeout: Some(TimeSpan::from_millis(50)), ..Default::default() },
    );
    graph.add_edge("A", "__END__");
    let err = World::new(graph).run("thread_timeout", TestState::default(), "A").unwrap_err();
    assert!(matches!(&err, TakelnError::ExecutionError(msg) if msg.contains("timed out")));
    assert_eq!(err.message(), "Execution error: Node A failed fatally: Node 'A' timed out after 50ms");
}

#[test]
fn fatal_errors_are_not_retried() {
    let mut graph = TestGraph::new();
    graph.add_node("A", fails(|| GraphError::Fatal("boom".into())));
    let mut world = World::new(graph);
    let err = world.run("t", TestState::default(), "A").unwrap_err();
    assert_eq!(err.message(), "Execution error: Node A failed fatally: boom");
    assert!(world.delays.is_empty());
    let span = world.effects.iter().find_map(|e| match e {
        Effect::Span(span) => Some(span),
        _ => None,
    });
    let span = span.unwrap();
    assert_eq!(span.status, SpanStatus::Error);
    assert!(matches!(&span.error, Some(SpanError::Text(text)) if text == "boom"));
    assert_eq!(world.completed(), vec![("A", SpanStatus::Error)]);
}

#[test]
fn test_cancellation_sequential() {
    let mut graph = TestGraph::new();
    graph.add_node("A", append("A"));
    let mut world = World::new(graph);
    world.cancelled = true;
    let result = world.run("thread_cancel", TestState::default(), "A");
    assert!(result.is_ok());
    let (_, meta, _) = world.store.load_state("thread_cancel").unwrap();
    assert_eq!(meta.next_node, "A");
    assert_eq!(meta.yield_request.unwrap().interrupt_id, "Cancelled");
}

// ── Budgets and sizes ───────────────────────────────────────────────────────

#[test]
fn test_budget_exceeded() {
    let mut graph = TestGraph::new();
    graph.add_node("A", costs(10.0));
    graph.set_budget_eur(eur(5.0));
    let mut world = World::new(graph);
    let err = world.run("thread_budget", TestState::default(), "A").unwrap_err();
    assert!(
        matches!(err, TakelnError::BudgetExceeded { spent_eur, limit_eur } if spent_eur == eur(10.0) && limit_eur == eur(5.0))
    );
    let span = world.effects.iter().find_map(|e| match e {
        Effect::Span(span) => Some(span),
        _ => None,
    });
    assert!(matches!(
        span.unwrap().error,
        Some(SpanError::Budget { spent_eur, limit_eur }) if spent_eur == eur(10.0) && limit_eur == eur(5.0)
    ));
    assert_eq!(world.completed(), vec![("A", SpanStatus::Error)]);
}

#[test]
fn budgets_add_up_over_a_run() {
    let mut graph = TestGraph::new();
    graph.add_node("A", costs(2.0));
    graph.add_edge("A", "A");
    graph.set_budget_eur(eur(5.0));
    let err = World::new(graph).run("t", TestState::default(), "A").unwrap_err();
    assert!(matches!(err, TakelnError::BudgetExceeded { spent_eur, .. } if spent_eur == eur(6.0)));
}

#[test]
fn nodes_have_budgets_of_their_own() {
    let mut graph = TestGraph::new();
    graph.add_node_with_config(
        "A",
        costs(0.6),
        NodeConfig { budget_eur: Some(eur(0.5)), ..Default::default() },
    );
    graph.set_budget_eur(eur(0.1));
    let mut world = World::new(graph);
    let err = world.run("t", TestState::default(), "A").unwrap_err();
    assert!(
        matches!(err, TakelnError::BudgetExceeded { spent_eur, limit_eur } if spent_eur == eur(0.6) && limit_eur == eur(0.5))
    );
    let spans = world.spans();
    assert_eq!(spans.len(), 1);
    assert_eq!(spans[0].status, SpanStatus::Error);
    assert!(matches!(
        spans[0].error,
        Some(SpanError::Budget { spent_eur, limit_eur }) if spent_eur == eur(0.6) && limit_eur == eur(0.5)
    ));
    assert_eq!(world.completed(), vec![("A", SpanStatus::Error)]);
    match world.effects.last() {
        Some(Effect::Event(GraphEvent::NodeFinished { status, cost, .. })) => {
            assert_eq!(status, "failed");
            assert_eq!(*cost, Some(eur(0.6)));
        }
        other => panic!("{:?}", other),
    }
}

#[test]
fn nodes_may_report_an_exceeded_budget() {
    let mut graph = TestGraph::new();
    graph.add_node("A", fails(|| GraphError::BudgetExceeded { spent_eur: eur(2.0), limit_eur: eur(1.0) }));
    let mut world = World::new(graph);
    let err = world.run("t", TestState::default(), "A").unwrap_err();
    assert!(
        matches!(err, TakelnError::BudgetExceeded { spent_eur, limit_eur } if spent_eur == eur(2.0) && limit_eur == eur(1.0))
    );
    assert_eq!(world.spans()[0].cost_eur, Some(eur(2.0)));
    assert_eq!(world.completed(), vec![("A", SpanStatus::Error)]);
}

#[test]
fn budget_enforced() {
    for (budget, calls) in [(0.001, 14), (0.0035, 47), (1.0, 100)] {
        let mut graph = TestGraph::new();
        let count = Rc::new(Cell::new(0u32));
        for i in 0..100 {
            let count = count.clone();
            graph.add_node(
                &format!("n{}", i),
                node(move |_, state| {
                    count.set(count.get() + 1);
                    let cost = 100.0 * 0.00000015 + 100.0 * 0.0000006;
                    Ok(NodeOutput::with_llm(state, 100, 100, "test-model", eur(cost)))
                }),
            );
        }
        for i in 0..99 {
            graph.add_edge(&format!("n{}", i), &format!("n{}", i + 1));
        }
        graph.add_edge("n99", "__END__");
        graph.set_budget_eur(eur(budget));
        match World::new(graph).run("budget_prop", TestState::default(), "n0") {
            Ok(_) => {}
            Err(TakelnError::BudgetExceeded { spent_eur, limit_eur }) => {
                assert!(f64::from_bits(limit_eur.bits) <= budget + 0.001);
                assert!(f64::from_bits(spent_eur.bits) > budget);
            }
            Err(e) => panic!("Unexpected error: {:?}", e),
        }
        // The overshoot is at most the node that passed the budget.
        assert_eq!(count.get(), calls);
    }
}

#[test]
fn test_max_checkpoint_bytes_enforced() {
    let mut graph = TestGraph::new();
    graph.set_resource_limits(ResourceLimits::default().with_max_checkpoint_bytes(10));
    graph.add_node("big", append("x"));
    graph.add_edge("big", "__END__");
    let mut world = World::new(graph);
    let err = world.run("t1", TestState::default(), "big").unwrap_err().message();
    assert!(err.contains("max_checkpoint_bytes"), "Expected max_checkpoint_bytes error, got: {}", err);
    assert!(world.store.load_state("t1").is_none());
}

#[test]
fn every_save_is_measured() {
    let small = ResourceLimits::default().with_max_checkpoint_bytes(10);
    let mut graph = yielding_chain();
    graph.set_resource_limits(small);
    let err = World::new(graph).run("t", TestState::default(), "B").unwrap_err();
    assert!(err.message().contains("max_checkpoint_bytes"));
    let mut graph = chain();
    graph.add_interrupt_before("B");
    graph.set_resource_limits(small);
    let run = SequentialRun {
        entered: true,
        ..plan_run("t", TestState::default(), 11, "B", &vec![])
    };
    let err = World::new(graph).drive(run).unwrap_err();
    assert!(err.message().contains("Checkpoint payload 11 bytes"));
}

// ── Crash recovery ──────────────────────────────────────────────────────────

fn crashed(graph: TestGraph, thread: &str, status: CheckpointStatus) -> World {
    let mut world = World::new(graph);
    let state = TestState { value: "before_crash".to_string(), logs: vec![] };
    world.store.save_state(thread, state, "B".to_string(), None, status, None, None, None);
    world
}

fn recovering(suffix: &'static str) -> TestGraph {
    let mut graph = TestGraph::new();
    graph.add_node("B", append(suffix));
    graph.add_edge("B", "__END__");
    graph
}

#[test]
fn test_crash_recovery_reset_to_pending() {
    let mut world = crashed(recovering("_resumed"), "thread_crash_reset", CheckpointStatus::Running);
    let result = world.resume("thread_crash_reset").unwrap();
    assert!(result.is_some());
    assert_eq!(result.unwrap().value, "before_crash_resumed");
}

#[test]
fn test_crash_recovery_fail_fast() {
    let mut graph = recovering("_resumed");
    graph.set_crash_recovery_policy(CrashRecoveryPolicy::FailFast);
    let mut world = crashed(graph, "thread_crash_fail", CheckpointStatus::Running);
    let err = world.resume("thread_crash_fail").unwrap_err();
    assert!(matches!(&err, TakelnError::ExecutionError(msg) if msg.contains("FailFast")));
    assert_eq!(
        err.message(),
        "Execution error: Checkpoint for thread 'thread_crash_fail' has Running status (crash detected). FailFast policy applied."
    );
}

#[test]
fn test_crash_recovery_skip_and_continue() {
    let mut graph = TestGraph::new();
    graph.add_node("B", append("_B"));
    graph.add_node("C", append("_C"));
    graph.add_edge("B", "C");
    graph.add_edge("C", "__END__");
    graph.set_crash_recovery_policy(CrashRecoveryPolicy::SkipAndContinue);
    let mut world = crashed(graph, "thread_crash_skip", CheckpointStatus::Running);
    let result = world.resume("thread_crash_skip").unwrap();
    assert!(result.is_some());
    // B was skipped, so only C appended
    assert_eq!(result.unwrap().value, "before_crash_C");
}

#[test]
fn skipping_a_node_without_an_edge_leads_to_the_end() {
    let calls = Rc::new(Cell::new(0));
    let seen = calls.clone();
    let mut graph = TestGraph::new();
    graph.add_node(
        "B",
        node(move |_, state| {
            seen.set(seen.get() + 1);
            Ok(NodeOutput::bare(state))
        }),
    );
    graph.set_crash_recovery_policy(CrashRecoveryPolicy::SkipAndContinue);
    let mut world = crashed(graph, "t", CheckpointStatus::Running);
    assert_eq!(world.resume("t").unwrap().unwrap().value, "before_crash");
    assert_eq!(calls.get(), 0);
    assert!(world.effects.iter().any(|e| matches!(e, Effect::GraphComplete { .. })));
}

#[test]
fn skipping_a_claimed_node_resolves_its_interrupt() {
    let mut graph = TestGraph::new();
    graph.add_node("B", append("_B"));
    graph.set_crash_recovery_policy(CrashRecoveryPolicy::SkipAndContinue);
    let mut world = World::new(graph);
    let state = TestState { value: "kept".to_string(), logs: vec![] };
    world.store.save_state(
        "t",
        state,
        "B".to_string(),
        None,
        CheckpointStatus::Running,
        Some(YieldRequest::simple("gate")),
        Some("gate".to_string()),
        None,
    );
    assert_eq!(world.resume("t").unwrap().unwrap().value, "kept");
    let (_, meta, _) = world.store.load_state("t").unwrap();
    assert_eq!(meta.resolved_interrupt.as_deref(), Some("gate"));
    assert_eq!(meta.next_node, "__END__");
}

/// A node that keeps the execution identifiers that it is called with.
fn keyed(ids: &Rc<RefCell<Vec<String>>>, fail: &Rc<Cell<Option<fn() -> GraphError>>>) -> TestNode {
    let (ids, fail) = (ids.clone(), fail.clone());
    node(move |ctx, mut state| {
        ids.borrow_mut().push(ctx.execution_id.clone());
        if let Some(error) = fail.get() {
            return Err(error());
        }
        state.value.push_str("B");
        Ok(NodeOutput::bare(state))
    })
}

#[test]
fn resumed_nodes_keep_their_execution_id() {
    let ids = Rc::new(RefCell::new(vec![]));
    let fail: Rc<Cell<Option<fn() -> GraphError>>> = Rc::new(Cell::new(None));
    let mut graph = chain();
    graph.add_node("B", keyed(&ids, &fail));
    let mut world = World::new(graph);

    // B crashes after the checkpoint of A, and is executed again.
    fail.set(Some(|| GraphError::Fatal("crash".into())));
    assert!(world.run("t", TestState::default(), "A").is_err());
    // Resumed, it yields.
    fail.set(Some(|| GraphError::Yield(YieldRequest::simple("gate"))));
    assert_eq!(world.resume("t").unwrap().unwrap().value, "A");
    // Resumed with input, it fails, and the resume is undone.
    fail.set(Some(|| GraphError::Fatal("crash".into())));
    assert!(world.resume_with_input("t", "gate", yes(), ResumeContext::default()).is_err());
    // Resumed with input, it yields once more.
    fail.set(Some(|| GraphError::Yield(YieldRequest::simple("gate2"))));
    world.resume_with_input("t", "gate", yes(), ResumeContext::default()).unwrap();
    // Claimed, the process crashes, and the thread is resumed.
    world.store.claim_interrupt("t", "gate2").unwrap();
    fail.set(None);
    assert_eq!(world.resume("t").unwrap().unwrap().value, "AB");

    let ids = ids.borrow();
    assert_eq!(ids.len(), 5);
    assert!(ids.iter().all(|id| *id == ids[0]));
}

#[test]
fn gates_in_a_row_keep_the_execution_id() {
    let ids = Rc::new(RefCell::new(vec![]));
    let fail: Rc<Cell<Option<fn() -> GraphError>>> = Rc::new(Cell::new(None));
    let mut graph = TestGraph::new();
    graph.add_node("X", append("X"));
    graph.add_node(
        "A",
        fails(|| GraphError::Yield(YieldRequest::new("first", "?").with_resume_mode(ResumeMode::Handoff))),
    );
    graph.add_node("C", keyed(&ids, &fail));
    graph.add_edge("X", "A");
    graph.add_edge("A", "C");
    let mut world = World::new(graph);
    world.run("t", TestState::default(), "X").unwrap();

    // The first gate hands off to C, which fails, and the resume is tried again.
    fail.set(Some(|| GraphError::Fatal("crash".into())));
    assert!(world.resume_with_input("t", "first", yes(), ResumeContext::default()).is_err());
    // C is the second gate.
    fail.set(Some(|| GraphError::Yield(YieldRequest::simple("second"))));
    world.resume_with_input("t", "first", yes(), ResumeContext::default()).unwrap();
    // Past the second gate C fails once and succeeds at last.
    fail.set(Some(|| GraphError::Fatal("crash".into())));
    assert!(world.resume_with_input("t", "second", yes(), ResumeContext::default()).is_err());
    fail.set(None);
    let state = world.resume_with_input("t", "second", yes(), ResumeContext::default()).unwrap().unwrap();
    assert_eq!(state.value, "XB");

    let ids = ids.borrow();
    assert_eq!(ids.len(), 4);
    assert!(ids.iter().all(|id| *id == ids[0]));
}

#[test]
fn nodes_started_by_name_keep_their_execution_id() {
    let ids = Rc::new(RefCell::new(vec![]));
    let fail: Rc<Cell<Option<fn() -> GraphError>>> = Rc::new(Cell::new(None));
    let mut graph = chain();
    graph.add_node("B", keyed(&ids, &fail));
    graph.add_interrupt_after("A");
    let mut world = World::new(graph);
    let state = world.run("t", TestState::default(), "A").unwrap();
    // B is started by hand, yields, and is resumed in three ways.
    fail.set(Some(|| GraphError::Yield(YieldRequest::simple("gate"))));
    world.run("t", state.clone(), "B").unwrap();
    world.resume("t").unwrap();
    world.run("t", state, "B").unwrap();
    fail.set(None);
    let state = world.resume_with_input("t", "gate", yes(), ResumeContext::default()).unwrap().unwrap();
    assert_eq!(state.value, "AB");

    let ids = ids.borrow();
    assert_eq!(ids.len(), 4);
    assert!(ids.iter().all(|id| *id == ids[0]));
}

#[test]
fn nodes_after_a_skipped_one_keep_their_execution_id() {
    let ids = Rc::new(RefCell::new(vec![]));
    let fail: Rc<Cell<Option<fn() -> GraphError>>> = Rc::new(Cell::new(None));
    let mut graph = TestGraph::new();
    graph.add_node("B", append("_B"));
    graph.add_node("C", keyed(&ids, &fail));
    graph.add_edge("B", "C");
    graph.set_crash_recovery_policy(CrashRecoveryPolicy::SkipAndContinue);
    let mut world = crashed(graph, "t", CheckpointStatus::Running);
    fail.set(Some(|| GraphError::Fatal("crash".into())));
    assert!(world.resume("t").is_err());
    fail.set(Some(|| GraphError::Yield(YieldRequest::simple("gate"))));
    world.resume("t").unwrap();
    fail.set(None);
    let state = world.resume_with_input("t", "gate", yes(), ResumeContext::default()).unwrap().unwrap();
    assert_eq!(state.value, "before_crashB");

    let ids = ids.borrow();
    assert_eq!(ids.len(), 3);
    assert!(ids.iter().all(|id| *id == ids[0]));
}

#[test]
fn pruning_keeps_the_execution_id() {
    let ids = Rc::new(RefCell::new(vec![]));
    let fail: Rc<Cell<Option<fn() -> GraphError>>> = Rc::new(Cell::new(None));
    let mut graph = chain();
    graph.add_node("B", keyed(&ids, &fail));
    let mut world = World::new(graph);
    fail.set(Some(|| GraphError::Yield(YieldRequest::simple("gate"))));
    world.run("t", TestState::default(), "A").unwrap();
    world.run("t", TestState::default(), "A").unwrap();
    assert_eq!(world.store.delete_checkpoints("t", RetentionPolicy::KeepLast(2)).unwrap(), 2);
    fail.set(None);
    world.resume_with_input("t", "gate", yes(), ResumeContext::default()).unwrap();
    let ids = ids.borrow();
    assert_eq!(ids.len(), 3);
    assert_ne!(ids[0], ids[1]);
    assert_eq!(ids[1], ids[2]);
}

#[test]
fn rolled_back_requests_accept_the_same_inputs() {
    let (mut world, probe) = yield_once("node", yes_or_no);
    let _ = world.run("t", TestState::default(), "node");
    probe.should_fail.set(true);
    assert!(world.resume_with_input("t", "choice", yes(), ResumeContext::default()).is_err());
    let (_, meta, _) = world.store.load_state("t").unwrap();
    let request = meta.yield_request.unwrap();
    let schema = request.schema.unwrap();
    assert!(schema.same(&yes_or_no().schema.unwrap()));
    probe.should_fail.set(false);
    let state = world.resume_with_input("t", "choice", yes(), ResumeContext::default()).unwrap().unwrap();
    assert_eq!(state.value, "_resumed");
}

#[test]
fn failed_attempts_report_their_index_and_duration() {
    let mut graph = TestGraph::new();
    graph.add_node("A", append("A"));
    graph.set_retry_policy(quick(2));
    let mut events = EventSequence::new();
    let started = Timestamp { secs: 100, nanos: 0 };
    let later = Timestamp { secs: 103, nanos: 500_000_000 };
    let run = plan_run("t", TestState::default(), 0, "A", &vec![]);
    let call = match run.step(&graph, started, &mut events) {
        Next::Call { call, .. } => call,
        _ => panic!("no call"),
    };
    let error = || GraphError::Retryable("slow".into());
    let (call, effects) = match call.fail(error(), later, &graph, &mut events) {
        AfterFailure::Retry { call, effects } => (call, effects),
        _ => panic!("no retry"),
    };
    match &effects[..] {
        [Effect::Span(span)] => {
            assert_eq!((span.status, span.attempt, span.duration_ms), (SpanStatus::Retrying, 0, 3500))
        }
        other => panic!("{:?}", other),
    }
    assert_eq!(call.attempt, 1);
    match call.fail(error(), later, &graph, &mut events) {
        AfterFailure::Failed { effects, .. } => match &effects[0] {
            Effect::Span(span) => {
                assert_eq!((span.status, span.attempt, span.duration_ms), (SpanStatus::Error, 1, 3500))
            }
            other => panic!("{:?}", other),
        },
        _ => panic!("tried again"),
    }
}

#[test]
fn resumed_runs_end_like_uninterrupted_ones() {
    let names = ["A", "B", "C", "D"];
    let four = || {
        let mut graph = TestGraph::new();
        for name in names {
            graph.add_node(name, append(name));
        }
        graph.add_conditional_edge(
            "A",
            Box::new(|s: &TestState| if s.value.len() < 3 { "B".into() } else { "D".into() }),
        );
        graph.add_edge("B", "C");
        graph.add_edge("C", "A");
        graph.add_edge("D", "__END__");
        graph
    };
    let whole = World::new(four()).run("t", TestState::default(), "A").unwrap();
    assert_eq!(whole.value, "ABCAD");
    for name in names {
        let mut graph = four();
        graph.add_interrupt_before(name);
        graph.add_interrupt_after(name);
        let mut world = World::new(graph);
        let mut state = world.run("t", TestState::default(), "A").unwrap();
        while world.store.load_state("t").unwrap().1.next_node != "__END__" {
            state = world.resume("t").unwrap().unwrap();
        }
        assert_eq!(state, whole);
    }
}

#[test]
fn test_resume_complete_checkpoint_no_crash_recovery() {
    let mut graph = recovering("_done");
    // Even with FailFast, a Complete checkpoint should not trigger crash recovery
    graph.set_crash_recovery_policy(CrashRecoveryPolicy::FailFast);
    let mut world = World::new(graph);
    let state = TestState { value: "ok".to_string(), logs: vec![] };
    world.store.save_state(
        "thread_normal_resume",
        state,
        "B".to_string(),
        None,
        CheckpointStatus::Complete,
        None,
        None,
        None,
    );
    let result = world.resume("thread_normal_resume").unwrap();
    assert!(result.is_some());
    assert_eq!(result.unwrap().value, "ok_done");
}

// ── Resume with input ───────────────────────────────────────────────────────

struct YieldOnce {
    calls: Rc<Cell<usize>>,
    should_fail: Rc<Cell<bool>>,
    execution_ids: Rc<RefCell<Vec<String>>>,
    inputs: Rc<RefCell<Vec<Option<JsonValue>>>>,
}

fn yield_once(name: &str, request: fn() -> YieldRequest) -> (World, YieldOnce) {
    let probe = YieldOnce {
        calls: Rc::new(Cell::new(0)),
        should_fail: Rc::new(Cell::new(false)),
        execution_ids: Rc::new(RefCell::new(vec![])),
        inputs: Rc::new(RefCell::new(vec![])),
    };
    let (calls, should_fail) = (probe.calls.clone(), probe.should_fail.clone());
    let (ids, inputs) = (probe.execution_ids.clone(), probe.inputs.clone());
    let mut graph = TestGraph::new();
    graph.add_node(
        name,
        node(move |ctx, mut state| {
            calls.set(calls.get() + 1);
            ids.borrow_mut().push(ctx.execution_id.clone());
            inputs.borrow_mut().push(ctx.resumed_input.clone());
            if calls.get() == 1 {
                return Err(GraphError::Yield(request()));
            }
            if should_fail.get() {
                return Err(GraphError::Fatal("Simulated failure".to_string()));
            }
            state.value.push_str("_resumed");
            Ok(NodeOutput::bare(state))
        }),
    );
    graph.add_edge(name, "__END__");
    (World::new(graph), probe)
}

fn approve() -> YieldRequest {
    YieldRequest::new("int_123", "Approve this").with_resume_mode(ResumeMode::ReEntry)
}

#[test]
fn test_resume_double_tap_idempotent() {
    let (mut world, probe) = yield_once("yield_node", approve);
    let _ = world.run("thread_1", TestState::default(), "yield_node");

    let first = world.resume_with_input("thread_1", "int_123", yes(), ResumeContext::new("alice")).unwrap().unwrap();
    assert_eq!(first.value, "_resumed");
    assert_eq!(probe.calls.get(), 2);

    let second = world.resume_with_input("thread_1", "int_123", yes(), ResumeContext::new("alice")).unwrap().unwrap();
    assert_eq!(second.value, "_resumed");
    assert_eq!(probe.calls.get(), 2);
    assert_eq!(world.resumed.len(), 1);
}

#[test]
fn test_resume_stale_interrupt_rejected() {
    let (mut world, _) = yield_once("yield_node", approve);
    let _ = world.run("thread_2", TestState::default(), "yield_node");

    let err = world.resume_with_input("thread_2", "wrong_id", yes(), ResumeContext::default()).unwrap_err();
    assert!(err.message().contains("Invalid resume"));

    let _ = world.resume_with_input("thread_2", "int_123", yes(), ResumeContext::default()).unwrap();

    let err2 = world.resume_with_input("thread_2", "wrong_id", yes(), ResumeContext::default()).unwrap_err();
    assert!(err2.message().contains("Nothing to resume") || err2.message().contains("Invalid resume"));
}

#[test]
fn test_resume_concurrent_single_winner() {
    let (mut world, probe) = yield_once("yield_node", approve);
    let _ = world.run("thread_3", TestState::default(), "yield_node");
    let world = Rc::new(RefCell::new(world));
    let resume = |world: Rc<RefCell<World>>| async move {
        world.borrow_mut().resume_with_input("thread_3", "int_123", yes(), ResumeContext::new("bob"))
    };
    let runtime = tokio::runtime::Builder::new_current_thread().build().unwrap();
    let tasks = tokio::task::LocalSet::new();
    let (res1, res2) = tasks.block_on(&runtime, async {
        let handle1 = tokio::task::spawn_local(resume(world.clone()));
        let handle2 = tokio::task::spawn_local(resume(world.clone()));
        (handle1.await.unwrap(), handle2.await.unwrap())
    });
    assert_eq!(res1.unwrap().unwrap().value, "_resumed");
    assert_eq!(res2.unwrap().unwrap().value, "_resumed");
    assert_eq!(probe.calls.get(), 2);
}

#[test]
fn test_execution_id_stable_across_reentry() {
    let (mut world, probe) = yield_once("yield_node", approve);
    let _ = world.run("thread_4", TestState::default(), "yield_node");
    world.resume_with_input("thread_4", "int_123", yes(), ResumeContext::new("charlie")).unwrap().unwrap();

    {
        let ids = probe.execution_ids.borrow();
        assert_eq!(ids.len(), 2);
        assert_eq!(ids[0], ids[1]);
    }
    let inputs = probe.inputs.borrow();
    assert!(inputs[0].is_none());
    assert!(inputs[1].as_ref().unwrap().same(&yes()));

    let history = world.history.execution_history();
    let resume_events: Vec<_> = history.iter().filter(|r| r.status == "resumed").collect();
    assert_eq!(resume_events.len(), 1);
    assert_eq!(resume_events[0].node_name, "yield_node");
    assert_eq!(resume_events[0].actor.as_deref(), Some("charlie"));
    assert_eq!(
        resume_events[0].response_hash.as_deref(),
        Some(compute_response_hash(&yes())).as_deref()
    );
    let yielded = world.store.list_checkpoints("thread_4")[0].checkpoint_id.clone();
    assert_eq!(resume_events[0].checkpoint_id, Some(yielded));
    assert_eq!(world.resumed[0].interrupt_id, "int_123");
    assert_eq!(world.resumed[0].thread_id, "thread_4");
    assert_eq!(world.resumed[0].resumed_at, resume_events[0].started_at);
}

#[test]
fn test_resume_failure_recovery() {
    let (mut world, probe) = yield_once("node", approve);
    probe.should_fail.set(true);
    // 1. Run initially to yield
    let _ = world.run("thread_1", TestState::default(), "node");

    // 2. Resume, which fails
    let resume_res = world.resume_with_input("thread_1", "int_123", yes(), ResumeContext::new("alice"));
    assert!(resume_res.is_err());

    // 3. The status reverted back to Yielded, and claimed_interrupt is None
    let loaded = world.store.load_state("thread_1").unwrap();
    assert_eq!(loaded.1.status, CheckpointStatus::Yielded);
    assert_eq!(loaded.1.claimed_interrupt, None);
    assert_eq!(loaded.1.yield_request.unwrap().interrupt_id, "int_123");

    // 4. Reset failure flag and try again
    probe.should_fail.set(false);
    let resume_res2 =
        world.resume_with_input("thread_1", "int_123", yes(), ResumeContext::new("alice")).unwrap().unwrap();
    assert_eq!(resume_res2.value, "_resumed");
}

#[test]
fn failed_rollbacks_are_reported() {
    let (mut world, probe) = yield_once("node", approve);
    probe.should_fail.set(true);
    let _ = world.run("t", TestState::default(), "node");
    world.save_fails = true;
    let err = world.resume_with_input("t", "int_123", yes(), ResumeContext::default()).unwrap_err();
    assert_eq!(
        err.message(),
        "Execution error: Execution failed: Execution error: Node node failed fatally: Simulated failure. Rollback save failed: Checkpoint failure: disk full"
    );
}

#[test]
fn test_concurrent_resume_in_progress() {
    let (mut world, _) = yield_once("node", approve);
    // 1. Run initially to yield
    let _ = world.run("thread_1", TestState::default(), "node");

    // 2. A resume starts and claims the interrupt
    let first = world.plan_input("thread_1", "int_123", yes()).unwrap();

    // 3. Try to resume concurrently
    let err = world.resume_with_input("thread_1", "int_123", yes(), ResumeContext::new("bob")).unwrap_err();

    // 4. It returned an ExecutionError indicating "Resume in progress"
    assert!(matches!(&err, TakelnError::ExecutionError(msg) if msg.contains("Resume in progress")));
    assert_eq!(
        err.message(),
        "Execution error: Resume in progress for interrupt 'int_123' on thread 'thread_1'"
    );

    // 5. Let the first resume finish
    let final_state = world.finish_input(first, ResumeContext::new("alice")).unwrap().unwrap();
    assert_eq!(final_state.value, "_resumed");
}

#[test]
fn test_crashed_resume_recovery() {
    let (mut world, probe) = yield_once("node", approve);
    probe.calls.set(1);
    // 1. A checkpoint with Running status and a claim represents a crash mid-resume.
    let request = YieldRequest::new("int_123", "Approve").with_resume_mode(ResumeMode::ReEntry);
    world.store.save_state(
        "thread_1",
        TestState::default(),
        "node".to_string(),
        None,
        CheckpointStatus::Running,
        Some(request),
        Some("int_123".to_string()),
        None,
    );

    // 2. Resume to recover: re-executes "node" passing the claimed_interrupt.
    let recovered_state = world.resume("thread_1").unwrap().unwrap();
    assert_eq!(recovered_state.value, "_resumed");

    // The history now records the resolved_interrupt
    let loaded = world.store.load_state("thread_1").unwrap();
    assert_eq!(loaded.1.status, CheckpointStatus::Complete);
    assert_eq!(loaded.1.resolved_interrupt, Some("int_123".to_string()));
}

fn yes_or_no() -> YieldRequest {
    let schema = JsonValue::Object(vec![
        ("type".to_string(), JsonValue::String("string".to_string())),
        ("enum".to_string(), JsonValue::Array(vec![yes(), JsonValue::String("no".to_string())])),
    ]);
    YieldRequest::new("choice", "Yes or no?").with_schema(schema)
}

#[test]
fn inputs_are_checked_against_the_schema() {
    let (mut world, probe) = yield_once("node", yes_or_no);
    let _ = world.run("t", TestState::default(), "node");
    let number = JsonValue::Number(JsonNumber::PosInt(1));
    let err = world.resume_with_input("t", "choice", number, ResumeContext::default()).unwrap_err();
    assert_eq!(
        err.message(),
        "Schema validation failed for interrupt 'choice': Expected type 'string', got 'integer'"
    );
    assert_eq!(probe.calls.get(), 1);
    // A refused input leaves the claim in place.
    assert_eq!(world.store.load_state("t").unwrap().1.status, CheckpointStatus::Running);
}

#[test]
fn accepted_inputs_reach_the_node() {
    let (mut world, _) = yield_once("node", yes_or_no);
    let _ = world.run("t", TestState::default(), "node");
    let state = world.resume_with_input("t", "choice", yes(), ResumeContext::default()).unwrap().unwrap();
    assert_eq!(state.value, "_resumed");
}

#[test]
fn handoffs_skip_the_yielded_node() {
    let mut graph = chain();
    graph.add_node(
        "A",
        fails(|| GraphError::Yield(YieldRequest::new("gate", "?").with_resume_mode(ResumeMode::Handoff))),
    );
    let mut world = World::new(graph);
    let _ = world.run("t", TestState::default(), "A");
    let state = world.resume_with_input("t", "gate", yes(), ResumeContext::default()).unwrap().unwrap();
    assert_eq!(state.value, "B");
    assert_eq!(world.resumed[0].node_name, "A");
    assert_eq!(world.store.load_state("t").unwrap().1.resolved_interrupt.as_deref(), Some("gate"));
}

#[test]
fn handoffs_to_the_end_resolve_the_interrupt() {
    let mut graph = TestGraph::new();
    graph.add_node(
        "A",
        fails(|| GraphError::Yield(YieldRequest::new("gate", "?").with_resume_mode(ResumeMode::Handoff))),
    );
    let mut world = World::new(graph);
    let start = TestState { value: "kept".to_string(), logs: vec![] };
    let _ = world.run("t", start.clone(), "A");
    let state = world.resume_with_input("t", "gate", yes(), ResumeContext::default()).unwrap().unwrap();
    assert_eq!(state, start);
    let (_, meta, _) = world.store.load_state("t").unwrap();
    assert_eq!(meta.status, CheckpointStatus::Complete);
    assert_eq!(meta.next_node, "__END__");
    assert_eq!(meta.resolved_interrupt.as_deref(), Some("gate"));
    assert_eq!(world.saved_ids(), world.listed_ids("t"));
    assert!(matches!(world.effects.last(), Some(Effect::Event(GraphEvent::GraphFinished { .. }))));
    // Resuming again gives the same and runs nothing.
    let again = world.resume_with_input("t", "gate", yes(), ResumeContext::default()).unwrap().unwrap();
    assert_eq!(again, start);
    assert_eq!(world.resumed.len(), 1);
    assert_eq!(world.store.list_checkpoints("t").len(), 2);
}

#[test]
fn closing_checkpoints_are_measured() {
    let graph = {
        let mut graph = TestGraph::new();
        graph.set_resource_limits(ResourceLimits::default().with_max_checkpoint_bytes(10));
        graph
    };
    let run = SequentialRun {
        resolved_interrupt: Some("gate".into()),
        ..plan_run("t", TestState::default(), 11, "__END__", &vec![])
    };
    let err = World::new(graph).drive(run).unwrap_err();
    assert!(err.message().contains("Checkpoint payload 11 bytes"));
}

#[test]
fn unknown_threads_have_nothing_to_resume() {
    let (mut world, _) = yield_once("node", approve);
    let err = world.resume_with_input("nobody", "i", yes(), ResumeContext::default()).unwrap_err();
    assert_eq!(err.message(), "Nothing to resume for thread 'nobody'");
    let plan = plan_resume_with_input(
        &world.graph,
        "nobody",
        "i",
        yes(),
        takeln::ClaimResult::Claimed,
        None::<YieldedCheckpoint<TestState>>,
    );
    assert!(matches!(plan, Err(TakelnError::NothingToResume(thread)) if thread == "nobody"));
}

#[test]
fn claimed_checkpoints_are_checked_once_more() {
    let (mut world, _) = yield_once("node", approve);
    let mut plan = |request: Option<YieldRequest>| {
        world.store.save_state(
            "t",
            TestState::default(),
            "node".to_string(),
            None,
            CheckpointStatus::Yielded,
            request,
            None,
            None,
        );
        let (state, meta, _) = world.store.load_state("t").unwrap();
        let loaded =
            YieldedCheckpoint { state: state.clone(), backup: state.clone(), state_bytes: 0, meta, history: vec![] };
        match plan_resume_with_input(&world.graph, "t", "i", yes(), takeln::ClaimResult::Claimed, Some(loaded)) {
            Ok(_) => panic!("resumed"),
            Err(error) => error.message(),
        }
    };
    assert_eq!(plan(None), "Nothing to resume for thread 'Thread 't' has no yield_request metadata'");
    assert_eq!(
        plan(Some(YieldRequest::simple("j"))),
        "Invalid resume: Expected interrupt_id 'j', got 'i'"
    );
}

// ── Dynamic nodes ───────────────────────────────────────────────────────────

fn with_dynamic(child: TestNode) -> World {
    let mut runner = ChildRunner::new();
    runner.add_child("child", child);
    let mut graph = TestGraph::new();
    graph.add_dynamic_node(
        "parent",
        Box::new(move |ctx: &NodeContext, mut state: TestState| {
            for _ in 0..3 {
                let child = runner.find_child("child")?;
                state = child_state((child.call)(&child_context(ctx, "child", None), state))?;
            }
            Ok(NodeOutput::bare(state))
        }),
    );
    graph.add_edge("parent", "__END__");
    World::new(graph)
}

#[test]
fn dynamic_nodes_call_their_children() {
    let mut world = with_dynamic(append("c"));
    let state = world.run("t", TestState::default(), "parent").unwrap();
    assert_eq!(state.value, "ccc");
    // Dynamic execution is atomic: one checkpoint.
    assert_eq!(world.store.list_checkpoints("t").len(), 1);
}

#[test]
fn yields_of_children_end_the_run() {
    let mut world = with_dynamic(fails(|| GraphError::Yield(YieldRequest::new("gate", "?"))));
    let err = world.run("t", TestState::default(), "parent").unwrap_err();
    assert_eq!(
        err.message(),
        "Execution error: HITL yield inside dynamic node is not supported (node: 'parent', interrupt: 'gate'). Move the yielding node to a top-level graph node."
    );
    assert!(world.store.load_state("t").is_none());
    let spans = world.spans();
    assert_eq!(spans.len(), 1);
    assert!(matches!(
        &spans[0].error,
        Some(SpanError::Text(text)) if text == "HITL yield inside dynamic node is not supported (interrupt: 'gate'). Move the yielding node to a top-level graph node."
    ));
    assert_eq!(world.completed(), vec![("parent", SpanStatus::Error)]);
    assert!(matches!(
        world.effects.last(),
        Some(Effect::Event(GraphEvent::NodeFinished { status, .. })) if status == "failed"
    ));
}

#[test]
fn dynamic_nodes_are_not_retried() {
    let mut world = with_dynamic(fails(|| GraphError::Retryable("slow".into())));
    let err = world.run("t", TestState::default(), "parent").unwrap_err();
    assert_eq!(
        err.message(),
        "Execution error: Node parent failed (retryable) after max attempts: slow"
    );
    assert!(world.delays.is_empty());
}
