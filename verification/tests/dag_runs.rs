//! DAG runs, driven wave by wave.
use std::cell::{Cell, RefCell};
use std::rc::Rc;
use takeln::clock::now;
use takeln::effects::Effect;
use takeln::emitter::SpanError;
use takeln::graph::EventSequence;
use takeln::resume::{plan_resume_dag, DagResume};
use takeln::tasks::{AfterTaskFailure, NodeTask, TaskCall, TaskTiming};
use takeln::waves::{AfterWave, Checkpointed, Collected, DagFailure, DagRun, NextWave, Settled};
use takeln::{
    CheckpointStatus, CrashRecoveryPolicy, DAGNode, Eur, Graph, GraphError, GraphEvent, InMemoryCheckpointer,
    Merge, NodeConfig, NodeMeta, NodeOutput, NodeStatus, ResourceLimits, RetryPolicy, SaveRequest, SpanContext, SpanStatus,
    TakelnError, TimeSpan, Timestamp, WaveFailurePolicy, YieldRequest, DAG,
};

#[derive(Clone, Default, Debug, PartialEq)]
struct TestState {
    value: String,
    logs: Vec<String>,
}

impl Merge for TestState {
    fn merge(&mut self, other: Self) {
        if !other.value.is_empty() {
            self.value = other.value;
        }
        self.logs.extend(other.logs);
    }
}

type Outcome = Result<NodeOutput<TestState>, GraphError>;
type TestNode = Box<dyn Fn(TestState) -> Outcome>;
type TestGraph = Graph<TestNode, TestNode, fn(&TestState) -> String>;

fn append(suffix: &'static str) -> TestNode {
    Box::new(move |mut state: TestState| {
        state.value.push_str(suffix);
        state.logs.push(suffix.to_string());
        Ok(NodeOutput::bare(state))
    })
}

fn set(value: &'static str) -> TestNode {
    Box::new(move |mut state: TestState| {
        state.value = value.to_string();
        Ok(NodeOutput::bare(state))
    })
}

fn costs(amount: f64) -> TestNode {
    Box::new(move |state: TestState| {
        Ok(NodeOutput { state, event: None, meta: NodeMeta { cost_eur: Some(eur(amount)), ..NodeMeta::default() } })
    })
}

fn fails(error: fn() -> GraphError) -> TestNode {
    Box::new(move |_| Err(error()))
}

fn eur(amount: f64) -> Eur {
    Eur { bits: amount.to_bits() }
}

/// How the results of a wave arrive.
#[derive(Clone, Copy, PartialEq)]
enum Arrival {
    InOrder,
    Reversed,
}

struct World {
    graph: TestGraph,
    store: InMemoryCheckpointer<TestState>,
    events: EventSequence,
    effects: Vec<Effect>,
    waves: Vec<Vec<String>>,
    arrival: Arrival,
    delays: Vec<TimeSpan>,
}

impl World {
    fn new(graph: TestGraph) -> World {
        World {
            graph,
            store: InMemoryCheckpointer::new(),
            events: EventSequence::new(),
            effects: vec![],
            waves: vec![],
            arrival: Arrival::InOrder,
            delays: vec![],
        }
    }

    fn save(&mut self, save: SaveRequest, state: &TestState, dag: &DAG) -> String {
        self.store.save_state(
            &save.thread_id,
            state.clone(),
            save.next_node,
            Some(dag),
            save.status,
            save.yield_request,
            save.claimed_interrupt,
            save.resolved_interrupt,
        )
    }

    fn call(&mut self, task: NodeTask, state: &TestState) -> (usize, TaskTiming, Outcome) {
        let index = task.index;
        let (mut call, effects): (TaskCall, Vec<Effect>) = task.start(now(), &mut self.events);
        self.effects.extend(effects);
        loop {
            let ctx = call.context(None);
            assert_eq!(ctx.attempt, call.attempt);
            let node = if call.task.dynamic {
                self.graph.dynamic_node(&call.task.node_name)
            } else {
                self.graph.node(&call.task.node_name)
            };
            match (node.unwrap())(state.clone()) {
                Ok(output) => {
                    let later = Timestamp { secs: call.started_at.secs + 2, ..call.started_at };
                    let (timing, effects) = call.succeed(output.meta.cost_eur, later, &mut self.events);
                    self.effects.extend(effects);
                    return (index, timing, Ok(output));
                }
                Err(error) => match call.fail(error, now(), &mut self.events) {
                    AfterTaskFailure::Retry { call: again, effects } => {
                        self.effects.extend(effects);
                        self.delays.push(again.delay());
                        call = again;
                    }
                    AfterTaskFailure::Settled { error, timing, effects } => {
                        self.effects.extend(effects);
                        return (index, timing, Err(error));
                    }
                },
            }
        }
    }

    fn drive(&mut self, mut run: DagRun<TestState>) -> Result<(TestState, DAG), DagFailure> {
        loop {
            let (mut wave, tasks) = match run.next_wave(&self.graph, &mut self.events) {
                NextWave::Failed(failure) => return Err(failure),
                NextWave::Finished { state, dag, effects } => {
                    self.effects.extend(effects);
                    return Ok((state, dag));
                }
                NextWave::Paused { run, save } => {
                    let id = self.save(save, &run.state, &run.dag);
                    let (state, dag, effects) = run.paused(&id, &mut self.events);
                    self.effects.extend(effects);
                    return Ok((state, dag));
                }
                NextWave::Launch { wave, tasks } => (wave, tasks),
            };
            self.waves.push(tasks.iter().map(|t| t.node_name.clone()).collect());
            let state = wave.run.state.clone();
            let mut results: Vec<(usize, TaskTiming, Outcome)> = tasks.into_iter().map(|t| self.call(t, &state)).collect();
            if self.arrival == Arrival::Reversed {
                results.reverse();
            }
            let mut cost = 0.0;
            for (index, timing, outcome) in results {
                let collected = match outcome {
                    Ok(output) => {
                        cost += output.meta.cost_eur.map_or(0.0, |c| f64::from_bits(c.bits));
                        wave.collect(index, output, timing, &self.graph)
                    }
                    Err(error) => wave.collect_error(index, error, timing, &self.graph),
                };
                match collected {
                    Collected::Continue(next) => wave = next,
                    Collected::Failed { failure, effects } => {
                        self.effects.extend(effects);
                        return Err(failure);
                    }
                }
            }
            let spent = eur(f64::from_bits(wave.run.spent.bits) + cost);
            let merged = match wave.settle(spent, &self.graph) {
                Settled::Failed { failure, effects } => {
                    self.effects.extend(effects);
                    return Err(failure);
                }
                Settled::Merged(merged) => merged,
            };
            let size = merged.run.state.value.len();
            let (merged, save) = match merged.checkpoint(size, &self.graph) {
                Checkpointed::Save { merged, save } => (merged, save),
                Checkpointed::Failed { failure, effects } => {
                    self.effects.extend(effects);
                    return Err(failure);
                }
            };
            let id = self.save(save, &merged.run.state, &merged.run.dag);
            run = match merged.saved(id, &self.graph, &mut self.events) {
                AfterWave::Continue { run, effects } => {
                    self.effects.extend(effects);
                    run
                }
                AfterWave::Finished { state, dag, effects } => {
                    self.effects.extend(effects);
                    return Ok((state, dag));
                }
            };
        }
    }

    fn run_dag(&mut self, thread: &str, dag: DAG, state: TestState, depth: u8) -> Result<(TestState, DAG), DagFailure> {
        let size = state.value.len();
        let run = DagRun::start(&self.graph, thread, dag, state, size, depth)?;
        self.drive(run)
    }

    fn resume_dag(&mut self, thread: &str, dag: DAG) -> Result<Option<(TestState, DAG)>, DagFailure> {
        let loaded = self.store.load_state(thread).map(|(s, m, d)| (s.clone(), m, d.cloned()));
        match plan_resume_dag(&self.graph, thread, dag, loaded, 0, 0) {
            DagResume::Nothing(_) => Ok(None),
            DagResume::Failed(failure) => Err(failure),
            DagResume::Run(run) => self.drive(run).map(Some),
        }
    }

    fn spans(&self) -> Vec<&SpanContext> {
        self.effects
            .iter()
            .filter_map(|e| match e {
                Effect::Span(span) => Some(span),
                _ => None,
            })
            .collect()
    }

    fn completed(&self) -> Vec<(&str, u64, SpanStatus)> {
        self.effects
            .iter()
            .filter_map(|e| match e {
                Effect::NodeComplete { node_name, duration_ms, status } => {
                    Some((node_name.as_str(), *duration_ms, *status))
                }
                _ => None,
            })
            .collect()
    }

    fn saved_ids(&self) -> Vec<&str> {
        self.effects
            .iter()
            .filter_map(|e| match e {
                Effect::CheckpointSaved { checkpoint_id, .. } => Some(checkpoint_id.as_str()),
                _ => None,
            })
            .collect()
    }

    fn listed_ids(&self, thread: &str) -> Vec<String> {
        self.store.list_checkpoints(thread).into_iter().map(|m| m.checkpoint_id).collect()
    }

    fn graphs_completed(&self) -> usize {
        self.effects.iter().filter(|e| matches!(e, Effect::GraphComplete { .. })).count()
    }

    fn finished(&self) -> usize {
        self.effects.iter().filter(|e| matches!(e, Effect::Event(GraphEvent::GraphFinished { .. }))).count()
    }
}

fn dag_of(nodes: Vec<(u128, &str, Vec<u128>)>) -> DAG {
    DAG {
        id: 77,
        nodes: nodes
            .into_iter()
            .map(|(id, name, depends_on)| DAGNode {
                id,
                step_type: name.to_string(),
                depends_on,
                status: NodeStatus::Pending,
            })
            .collect(),
        created_at: Timestamp { secs: 0, nanos: 0 },
    }
}

fn statuses(dag: &DAG) -> Vec<NodeStatus> {
    dag.nodes.iter().map(|n| n.status).collect()
}

#[test]
fn test_dag_parallel_execution() {
    let mut graph = TestGraph::new();
    graph.add_node("Navigate", append("A"));
    graph.add_node("Extract", append("B"));
    let dag = dag_of(vec![(1, "Navigate", vec![]), (2, "Extract", vec![])]);
    let (final_state, _) = World::new(graph).run_dag("thread_parallel", dag, TestState::default(), 0).unwrap();
    assert!(final_state.logs.contains(&"A".to_string()));
    assert!(final_state.logs.contains(&"B".to_string()));
    assert_eq!(final_state.logs.len(), 2);
}

fn abc() -> TestGraph {
    let mut graph = TestGraph::new();
    graph.add_node("A", append("A"));
    graph.add_node("B", append("B"));
    graph.add_node("C", append("C"));
    graph
}

fn abc_dag() -> DAG {
    dag_of(vec![(1, "A", vec![]), (2, "B", vec![1]), (3, "C", vec![2])])
}

#[test]
fn test_durable_dag_restart_recovery() {
    let mut graph = abc();
    graph.add_interrupt_before("C");
    let mut world = World::new(graph);
    let (intermediate_state, dag) = world.run_dag("thread_durable", abc_dag(), TestState::default(), 0).unwrap();
    assert_eq!(intermediate_state.value, "AB");
    assert_eq!(dag.nodes[0].status, NodeStatus::Done);
    assert_eq!(dag.nodes[1].status, NodeStatus::Done);
    assert_eq!(dag.nodes[2].status, NodeStatus::Pending);
    // A DAG run that pauses reports that it finished, but not that it completed.
    assert_eq!(world.finished(), 1);
    assert_eq!(world.graphs_completed(), 0);
    assert_eq!(world.saved_ids(), world.listed_ids("thread_durable"));

    let mut fresh_dag = abc_dag();
    let (loaded_state, meta, saved_dag_opt) = world.store.load_state("thread_durable").unwrap();
    assert_eq!(loaded_state.value, "AB");
    assert_eq!(meta.next_node, "C");
    assert_eq!(meta.status, CheckpointStatus::Interrupted);
    assert!(saved_dag_opt.is_some());
    let loaded_state = loaded_state.clone();
    fresh_dag.restore_statuses(saved_dag_opt.unwrap());
    assert_eq!(fresh_dag.nodes[0].status, NodeStatus::Done);
    assert_eq!(fresh_dag.nodes[1].status, NodeStatus::Done);
    assert_eq!(fresh_dag.nodes[2].status, NodeStatus::Pending);

    let (final_resumed_state, done) = world.run_dag("thread_durable", fresh_dag, loaded_state, 0).unwrap();
    assert_eq!(final_resumed_state.value, "ABC");
    assert_eq!(done.nodes[2].status, NodeStatus::Done);
}

#[test]
fn dag_runs_resume_from_their_checkpoint() {
    let mut graph = abc();
    graph.add_interrupt_before("C");
    let mut world = World::new(graph);
    world.run_dag("t", abc_dag(), TestState::default(), 0).unwrap();
    let (state, dag) = world.resume_dag("t", abc_dag()).unwrap().unwrap();
    assert_eq!(state.value, "ABC");
    assert_eq!(statuses(&dag), vec![NodeStatus::Done; 3]);
    assert!(world.resume_dag("nobody", abc_dag()).unwrap().is_none());
}

#[test]
fn sequential_checkpoints_have_no_dag_to_resume() {
    let mut world = World::new(abc());
    world.store.save_state(
        "t",
        TestState::default(),
        "A".to_string(),
        None,
        CheckpointStatus::Complete,
        None,
        None,
        None,
    );
    assert!(world.resume_dag("t", abc_dag()).unwrap().is_none());
}

#[test]
fn test_deterministic_merge_order() {
    for arrival in [Arrival::InOrder, Arrival::Reversed] {
        let mut graph = TestGraph::new();
        graph.add_node("A", set("ValA"));
        graph.add_node("B", set("ValB"));
        let dag = dag_of(vec![(1, "A", vec![]), (2, "B", vec![])]);
        let mut world = World::new(graph);
        world.arrival = arrival;
        let (final_state, _) = world.run_dag("thread_merge_det", dag, TestState::default(), 0).unwrap();
        assert_eq!(final_state.value, "ValB");
    }
}

#[test]
fn merges_go_by_node_index() {
    let mut graph = TestGraph::new();
    let names = ["n0", "n1", "n2", "n3", "n4"];
    let logs: [&'static str; 5] = ["0", "1", "2", "3", "4"];
    for (name, log) in names.iter().zip(logs) {
        graph.add_node(name, append(log));
    }
    let dag = dag_of(names.iter().enumerate().map(|(i, n)| (i as u128 + 1, *n, vec![])).collect());
    let mut world = World::new(graph);
    world.arrival = Arrival::Reversed;
    let (state, _) = world.run_dag("t", dag, TestState::default(), 0).unwrap();
    assert_eq!(state.logs, vec!["0", "1", "2", "3", "4"]);
}

#[test]
fn test_wave_continue_on_error() {
    let mut graph = TestGraph::new();
    graph.add_node("A", append("A"));
    graph.add_node("B", fails(|| GraphError::Fatal("boom".to_string())));
    graph.set_wave_failure_policy(WaveFailurePolicy::ContinueOnError);
    let dag = dag_of(vec![(1, "A", vec![]), (2, "B", vec![])]);
    let mut world = World::new(graph);
    world.arrival = Arrival::Reversed;
    let failure = world.run_dag("thread_continue", dag, TestState::default(), 0).unwrap_err();
    match failure.error {
        TakelnError::PartialWaveFailure { succeeded, failed } => {
            assert!(succeeded.contains(&"A".to_string()));
            assert_eq!(failed.len(), 1);
            assert_eq!(failed[0].0, "B");
            assert_eq!(failed[0].1, "Fatal error: boom");
        }
        other => panic!("Expected PartialWaveFailure, got: {:?}", other),
    }
    assert_eq!(statuses(&failure.dag), vec![NodeStatus::Done, NodeStatus::Failed]);
    assert!(world.store.load_state("thread_continue").is_none());
}

#[test]
fn waves_fail_fast_by_default() {
    let mut graph = TestGraph::new();
    graph.add_node("A", append("A"));
    graph.add_node("B", fails(|| GraphError::Fatal("boom".to_string())));
    let dag = dag_of(vec![(2, "B", vec![]), (1, "A", vec![])]);
    let failure = World::new(graph).run_dag("t", dag, TestState::default(), 0).unwrap_err();
    assert_eq!(failure.error.message(), "Execution error: Node B failed: Fatal error: boom");
    assert_eq!(statuses(&failure.dag), vec![NodeStatus::Failed, NodeStatus::Running]);
}

#[test]
fn waves_follow_the_dependencies() {
    let names = ["fetch", "parse", "score", "rank", "merge"];
    let mut graph = TestGraph::new();
    for name in names {
        graph.add_node(name, append("x"));
    }
    let dag = DAG::builder()
        .node("fetch", &[])
        .node("parse", &["fetch"])
        .node("score", &["parse"])
        .node("rank", &["parse"])
        .node("merge", &["score", "rank"])
        .build()
        .unwrap();
    let mut world = World::new(graph);
    let (_, dag) = world.run_dag("t", dag, TestState::default(), 0).unwrap();
    assert_eq!(
        world.waves,
        vec![
            vec!["fetch".to_string()],
            vec!["parse".to_string()],
            vec!["score".to_string(), "rank".to_string()],
            vec!["merge".to_string()]
        ]
    );
    assert_eq!(statuses(&dag), vec![NodeStatus::Done; 5]);
    let next: Vec<String> = world.store.list_checkpoints("t").into_iter().map(|m| m.next_node).collect();
    assert_eq!(next, vec!["parse", "score", "merge", "__END__"]);
}

#[test]
fn test_large_dag_100_nodes() {
    let mut graph = TestGraph::new();
    let mut builder = DAG::builder();
    // Create 10 waves of 10 nodes each
    for wave in 0..10 {
        for n in 0..10 {
            let name = format!("w{}n{}", wave, n);
            graph.add_node(&name, set("x"));
            if wave == 0 {
                builder = builder.node(&name, &[]);
            } else {
                // Each node depends on one node from the previous wave
                let dep = format!("w{}n{}", wave - 1, n);
                builder = builder.node(&name, &[&dep]);
            }
        }
    }
    let dag = builder.build().unwrap();
    assert_eq!(dag.nodes.len(), 100);
    let mut world = World::new(graph);
    let (_, dag) = world.run_dag("load_100", dag, TestState::default(), 0).unwrap();
    for node in &dag.nodes {
        assert_eq!(node.status, NodeStatus::Done, "Node {} not done", node.step_type);
    }
    assert_eq!(world.waves.len(), 10);
}

#[test]
fn test_max_dag_nodes_enforced() {
    let mut graph = TestGraph::new();
    graph.set_resource_limits(ResourceLimits::default().with_max_dag_nodes(5));
    let mut builder = DAG::builder();
    for i in 0..10 {
        let name = format!("n{}", i);
        graph.add_node(&name, append("x"));
        if i == 0 {
            builder = builder.node(&name, &[]);
        } else {
            builder = builder.node(&name, &[&format!("n{}", i - 1)]);
        }
    }
    let dag = builder.build().unwrap();
    let failure = World::new(graph).run_dag("t1", dag, TestState::default(), 0).unwrap_err();
    let err = failure.error.message();
    assert!(err.contains("max_dag_nodes"), "Expected max_dag_nodes error, got: {}", err);
    assert_eq!(err, "Execution error: DAG has 10 nodes, exceeding max_dag_nodes limit of 5");
}

#[test]
fn test_semaphore_limits_concurrency() {
    let mut graph = TestGraph::new();
    graph.set_resource_limits(ResourceLimits::default().with_max_concurrent_nodes(2));
    assert_eq!(graph.limits().wave_permits(), 2);
    for i in 0..6 {
        graph.add_node(&format!("n{}", i), append("x"));
    }
    // A 3-wave DAG: [n0, n1] -> [n2, n3] -> [n4, n5]
    let dag = dag_of(vec![
        (10, "n0", vec![]),
        (11, "n1", vec![]),
        (12, "n2", vec![10, 11]),
        (13, "n3", vec![10, 11]),
        (14, "n4", vec![12, 13]),
        (15, "n5", vec![12, 13]),
    ]);
    let (final_state, dag) = World::new(graph).run_dag("t_sem", dag, TestState::default(), 0).unwrap();
    assert!(final_state.value.len() > 0);
    for node in &dag.nodes {
        assert_eq!(node.status, NodeStatus::Done, "All nodes should be Done");
    }
}

#[test]
fn deep_nesting_is_refused() {
    let failure = World::new(abc()).run_dag("t", abc_dag(), TestState::default(), 9).unwrap_err();
    assert!(matches!(failure.error, TakelnError::RecursionLimitExceeded { depth: 9, limit: 8 }));
    assert_eq!(statuses(&failure.dag), vec![NodeStatus::Pending; 3]);
    assert!(World::new(abc()).run_dag("t", abc_dag(), TestState::default(), 8).is_ok());
}

#[test]
fn unsatisfied_dependencies_deadlock() {
    let dag = dag_of(vec![(1, "A", vec![]), (2, "B", vec![99]), (3, "C", vec![2])]);
    let failure = World::new(abc()).run_dag("t", dag, TestState::default(), 0).unwrap_err();
    assert!(matches!(failure.error, TakelnError::DAGDeadlock(names) if names == "B, C"));
    assert_eq!(statuses(&failure.dag), vec![NodeStatus::Done, NodeStatus::Pending, NodeStatus::Pending]);
}

#[test]
fn unregistered_nodes_are_not_launched() {
    let dag = dag_of(vec![(1, "A", vec![]), (2, "X", vec![]), (3, "Y", vec![])]);
    let mut world = World::new(abc());
    let failure = world.run_dag("t", dag, TestState::default(), 0).unwrap_err();
    assert!(matches!(failure.error, TakelnError::NodeNotFound(name) if name == "X"));
    assert_eq!(statuses(&failure.dag), vec![NodeStatus::Running; 3]);
    assert!(world.waves.is_empty());
}

#[test]
fn yields_suspend_the_dag() {
    let mut graph = abc();
    graph.add_node("B", fails(|| GraphError::Yield(YieldRequest::new("gate", "go on?"))));
    let dag = dag_of(vec![(1, "A", vec![]), (2, "B", vec![]), (3, "C", vec![2])]);
    let mut world = World::new(graph);
    let (state, dag) = world.run_dag("t", dag, TestState::default(), 0).unwrap();
    // What the others did is merged and saved.
    assert_eq!(state.value, "A");
    assert_eq!(state.logs, vec!["A"]);
    assert_eq!(statuses(&dag), vec![NodeStatus::Done, NodeStatus::Yielded, NodeStatus::Pending]);
    let (_, meta, _) = world.store.load_state("t").unwrap();
    assert_eq!(meta.status, CheckpointStatus::Yielded);
    assert_eq!(meta.next_node, "B,C");
    assert_eq!(meta.yield_request.unwrap().interrupt_id, "gate");
    assert_eq!(world.finished(), 0);
    let (saved, _, _) = world.store.load_state("t").unwrap();
    assert_eq!(*saved, state);
    let ids = world.listed_ids("t");
    assert_eq!(world.saved_ids(), ids);
    let spans: Vec<(&str, SpanStatus, Option<&str>)> =
        world.spans().iter().map(|s| (s.node_name.as_str(), s.status, s.checkpoint_id.as_deref())).collect();
    assert_eq!(
        spans,
        vec![
            ("A", SpanStatus::Success, Some(ids[0].as_str())),
            ("B", SpanStatus::Cancelled, Some(ids[0].as_str()))
        ]
    );
}

#[test]
fn yielded_nodes_run_again_when_resumed() {
    let ready = Rc::new(Cell::new(false));
    let open = ready.clone();
    let mut graph = abc();
    graph.add_node(
        "B",
        Box::new(move |mut state: TestState| {
            if !open.get() {
                return Err(GraphError::Yield(YieldRequest::new("gate", "go on?")));
            }
            state.value.push_str("B");
            Ok(NodeOutput::bare(state))
        }),
    );
    let dag = || dag_of(vec![(1, "A", vec![]), (2, "B", vec![]), (3, "C", vec![2])]);
    let mut world = World::new(graph);
    let (state, _) = world.run_dag("t", dag(), TestState::default(), 0).unwrap();
    assert_eq!(state.value, "A");
    ready.set(true);
    let (state, done) = world.resume_dag("t", dag()).unwrap().unwrap();
    assert_eq!(state.value, "ABC");
    assert_eq!(statuses(&done), vec![NodeStatus::Done; 3]);
    let waves: Vec<Vec<&str>> = world.waves.iter().map(|w| w.iter().map(|n| n.as_str()).collect()).collect();
    assert_eq!(waves, vec![vec!["A", "B"], vec!["B"], vec!["C"]]);
}

#[test]
fn budgets_do_not_stop_a_yield() {
    let mut graph = abc();
    graph.add_node("A", costs(0.9));
    graph.add_node("B", fails(|| GraphError::Yield(YieldRequest::simple("gate"))));
    graph.set_budget_eur(eur(0.5));
    let dag = dag_of(vec![(1, "A", vec![]), (2, "B", vec![])]);
    let mut world = World::new(graph);
    world.run_dag("t", dag, TestState::default(), 0).unwrap();
    assert_eq!(world.store.load_state("t").unwrap().1.status, CheckpointStatus::Yielded);
}

#[test]
fn waves_report_their_nodes() {
    let mut world = World::new(abc());
    let start = now();
    world.run_dag("t", abc_dag(), TestState::default(), 0).unwrap();
    let ids = world.listed_ids("t");
    assert_eq!(ids.len(), 3);
    assert_eq!(world.saved_ids(), ids);
    assert_eq!(world.graphs_completed(), 1);
    assert_eq!(world.finished(), 1);
    let success = SpanStatus::Success;
    assert_eq!(world.completed(), vec![("A", 2000, success), ("B", 2000, success), ("C", 2000, success)]);
    for (span, id) in world.spans().iter().zip(&ids) {
        assert_eq!(span.duration_ms, 2000);
        assert_eq!(span.attempt, 0);
        assert_eq!(span.checkpoint_id.as_ref(), Some(id));
        assert_eq!(span.dag_id.as_deref(), Some("00000000-0000-0000-0000-00000000004d"));
    }
    let records: Vec<_> = world
        .effects
        .iter()
        .filter_map(|e| match e {
            Effect::Record(record) => Some(record),
            _ => None,
        })
        .collect();
    assert_eq!(records.len(), 3);
    for (record, id) in records.iter().zip(&ids) {
        assert_eq!(record.duration_ms, 2000);
        assert_eq!(record.checkpoint_id.as_ref(), Some(id));
        assert!(record.started_at.secs >= start.secs);
    }
    // The run ends with what it completed, after the last checkpoint.
    let n = world.effects.len();
    assert!(matches!(world.effects[n - 2], Effect::GraphComplete { total_duration_ms: 0, .. }));
    assert!(matches!(world.effects[n - 1], Effect::Event(GraphEvent::GraphFinished { .. })));
}

#[test]
fn failed_waves_report_their_nodes() {
    let mut graph = abc();
    graph.add_node("B", fails(|| GraphError::Fatal("boom".into())));
    graph.set_wave_failure_policy(WaveFailurePolicy::ContinueOnError);
    let dag = dag_of(vec![(1, "A", vec![]), (2, "B", vec![])]);
    let mut world = World::new(graph);
    assert!(world.run_dag("t", dag, TestState::default(), 0).is_err());
    let completed: Vec<(&str, SpanStatus)> = world.completed().iter().map(|c| (c.0, c.2)).collect();
    assert_eq!(completed, vec![("A", SpanStatus::Success), ("B", SpanStatus::Error)]);
    let spans = world.spans();
    assert!(spans.iter().all(|s| s.checkpoint_id.is_none() && s.dag_id.is_some()));
    assert!(matches!(&spans[1].error, Some(SpanError::Text(text)) if text == "boom"));
}

#[test]
fn interrupts_before_a_wave_pause_it() {
    let mut graph = abc();
    graph.add_interrupt_before("C");
    let dag = dag_of(vec![(1, "A", vec![]), (2, "B", vec![1]), (3, "C", vec![1])]);
    let mut world = World::new(graph);
    let (state, _) = world.run_dag("t", dag, TestState::default(), 0).unwrap();
    assert_eq!(state.value, "A");
    assert_eq!(world.store.load_state("t").unwrap().1.next_node, "B,C");
    // The first wave of a run is never paused.
    let mut graph = abc();
    graph.add_interrupt_before("A");
    assert_eq!(World::new(graph).run_dag("t", abc_dag(), TestState::default(), 0).unwrap().0.value, "ABC");
}

#[test]
fn interrupts_after_a_wave_end_the_run() {
    let mut graph = abc();
    graph.add_interrupt_after("B");
    let mut world = World::new(graph);
    let (state, dag) = world.run_dag("t", abc_dag(), TestState::default(), 0).unwrap();
    assert_eq!(state.value, "AB");
    assert_eq!(statuses(&dag), vec![NodeStatus::Done, NodeStatus::Done, NodeStatus::Pending]);
    assert_eq!(world.finished(), 1);
    let statuses: Vec<CheckpointStatus> = world.store.list_checkpoints("t").iter().map(|m| m.status).collect();
    assert_eq!(statuses, vec![CheckpointStatus::Complete, CheckpointStatus::Interrupted]);
    let (state, _) = world.resume_dag("t", abc_dag()).unwrap().unwrap();
    assert_eq!(state.value, "ABC");
}

#[test]
fn resumed_dags_end_like_uninterrupted_ones() {
    let whole = World::new(abc()).run_dag("t", abc_dag(), TestState::default(), 0).unwrap().0;
    for name in ["A", "B", "C"] {
        for arrival in [Arrival::InOrder, Arrival::Reversed] {
            let mut graph = abc();
            graph.add_interrupt_after(name);
            let mut world = World::new(graph);
            world.arrival = arrival;
            let (mut state, mut dag) = world.run_dag("t", abc_dag(), TestState::default(), 0).unwrap();
            while statuses(&dag) != vec![NodeStatus::Done; 3] {
                (state, dag) = world.resume_dag("t", abc_dag()).unwrap().unwrap();
            }
            assert_eq!(state, whole);
        }
    }
}

#[test]
fn budgets_hold_for_nodes_and_waves() {
    let mut graph = TestGraph::new();
    graph.add_node("A", costs(0.4));
    graph.add_node("B", costs(0.4));
    graph.set_budget_eur(eur(0.5));
    let dag = dag_of(vec![(1, "A", vec![]), (2, "B", vec![])]);
    let failure = World::new(graph).run_dag("t", dag, TestState::default(), 0).unwrap_err();
    assert!(
        matches!(failure.error, TakelnError::BudgetExceeded { spent_eur, limit_eur } if spent_eur == eur(0.8) && limit_eur == eur(0.5))
    );
    assert_eq!(statuses(&failure.dag), vec![NodeStatus::Done; 2]);

    let mut graph = TestGraph::new();
    let capped = NodeConfig { budget_eur: Some(eur(0.3)), ..Default::default() };
    graph.add_node_with_config("A", costs(0.4), capped);
    let mut world = World::new(graph);
    let failure = world.run_dag("t", dag_of(vec![(1, "A", vec![])]), TestState::default(), 0).unwrap_err();
    assert!(
        matches!(failure.error, TakelnError::BudgetExceeded { spent_eur, limit_eur } if spent_eur == eur(0.4) && limit_eur == eur(0.3))
    );
    assert_eq!(statuses(&failure.dag), vec![NodeStatus::Running]);
    assert_eq!(world.completed(), vec![("A", 2000, SpanStatus::Error)]);
    assert_eq!(world.spans()[0].cost_eur, Some(eur(0.4)));

    let mut graph = TestGraph::new();
    graph.add_node("A", fails(|| GraphError::BudgetExceeded { spent_eur: eur(2.0), limit_eur: eur(1.0) }));
    graph.set_wave_failure_policy(WaveFailurePolicy::ContinueOnError);
    let failure =
        World::new(graph).run_dag("t", dag_of(vec![(1, "A", vec![])]), TestState::default(), 0).unwrap_err();
    assert!(matches!(failure.error, TakelnError::BudgetExceeded { spent_eur, .. } if spent_eur == eur(2.0)));
}

#[test]
fn merged_states_are_measured() {
    let mut graph = abc();
    graph.set_resource_limits(ResourceLimits::default().with_max_checkpoint_bytes(1));
    let mut world = World::new(graph);
    let failure = world.run_dag("t", abc_dag(), TestState::default(), 0).unwrap_err();
    assert_eq!(
        failure.error.message(),
        "Execution error: Checkpoint payload 2 bytes exceeds max_checkpoint_bytes limit of 1"
    );
    assert_eq!(world.store.list_checkpoints("t").len(), 1);
}

#[test]
fn wave_nodes_are_retried() {
    let calls = Rc::new(Cell::new(0));
    let seen = calls.clone();
    let mut graph = TestGraph::new();
    graph.set_retry_policy(RetryPolicy { max_attempts: 3, base_delay_ms: 1, jitter: false, ..Default::default() });
    graph.add_node(
        "A",
        Box::new(move |state| {
            seen.set(seen.get() + 1);
            if seen.get() < 3 {
                Err(GraphError::Retryable("slow".into()))
            } else {
                Ok(NodeOutput::bare(state))
            }
        }),
    );
    let mut world = World::new(graph);
    world.run_dag("t", dag_of(vec![(1, "A", vec![])]), TestState::default(), 0).unwrap();
    assert_eq!(calls.get(), 3);
    let spans: Vec<(SpanStatus, u8)> = world
        .effects
        .iter()
        .filter_map(|e| match e {
            Effect::Span(span) => Some((span.status, span.attempt)),
            _ => None,
        })
        .collect();
    assert_eq!(spans, vec![(SpanStatus::Retrying, 0), (SpanStatus::Retrying, 1), (SpanStatus::Success, 2)]);
    assert_eq!(world.delays, vec![TimeSpan::from_millis(1), TimeSpan::from_millis(2)]);
    assert!(world.spans().iter().all(|s| s.dag_id.is_some()));
}

#[test]
fn wave_nodes_run_out_of_attempts() {
    let mut graph = TestGraph::new();
    graph.set_retry_policy(RetryPolicy { max_attempts: 2, base_delay_ms: 1, jitter: false, ..Default::default() });
    graph.add_node("A", fails(|| GraphError::Retryable("slow".into())));
    graph.add_dynamic_node("D", fails(|| GraphError::Retryable("slow".into())));
    let mut world = World::new(graph);
    let failure = world.run_dag("t", dag_of(vec![(1, "A", vec![])]), TestState::default(), 0).unwrap_err();
    assert_eq!(failure.error.message(), "Execution error: Node A failed: Retryable error: slow");
    let spans: Vec<(SpanStatus, u8)> = world.spans().iter().map(|s| (s.status, s.attempt)).collect();
    assert_eq!(spans, vec![(SpanStatus::Retrying, 0), (SpanStatus::Error, 1)]);
    // Dynamic nodes are called once.
    let mut effects = std::mem::take(&mut world.effects);
    effects.clear();
    let failure = world.run_dag("t", dag_of(vec![(1, "D", vec![])]), TestState::default(), 0).unwrap_err();
    assert_eq!(failure.error.message(), "Execution error: Node D failed: Retryable error: slow");
    let spans: Vec<(SpanStatus, u8)> = world.spans().iter().map(|s| (s.status, s.attempt)).collect();
    assert_eq!(spans, vec![(SpanStatus::Error, 0)]);
}

#[test]
fn tasks_publish_how_they_ended() {
    let mut graph = TestGraph::new();
    graph.set_wave_failure_policy(WaveFailurePolicy::ContinueOnError);
    graph.add_node("A", costs(0.5));
    graph.add_node("B", fails(|| GraphError::Fatal("boom".into())));
    graph.add_node("C", fails(|| GraphError::Yield(YieldRequest::simple("?"))));
    let dag = dag_of(vec![(1, "A", vec![]), (2, "B", vec![]), (3, "C", vec![])]);
    let mut world = World::new(graph);
    let _ = world.run_dag("t", dag, TestState::default(), 0);
    let ended: Vec<(String, String, Option<Eur>, u64)> = world
        .effects
        .iter()
        .filter_map(|e| match e {
            Effect::Event(GraphEvent::NodeFinished { node_name, status, cost, sequence_number, .. }) => {
                Some((node_name.clone(), status.clone(), *cost, *sequence_number))
            }
            _ => None,
        })
        .collect();
    assert_eq!(
        ended,
        vec![
            ("A".to_string(), "success".to_string(), Some(eur(0.5)), 1),
            ("B".to_string(), "failed".to_string(), None, 3),
            ("C".to_string(), "yielded".to_string(), None, 5)
        ]
    );
}

#[test]
fn panics_end_the_run() {
    let run = DagRun::start(&abc(), "t", abc_dag(), TestState::default(), 0, 0).unwrap();
    let mut events = EventSequence::new();
    match run.next_wave(&abc(), &mut events) {
        NextWave::Launch { wave, .. } => {
            let (failure, effects) = wave.collect_panic("task 1 panicked".to_string());
            assert!(effects.is_empty());
            assert_eq!(failure.error.message(), "JoinSet panic: task 1 panicked");
            assert_eq!(failure.dag.nodes[0].status, NodeStatus::Running);
        }
        _ => panic!("no wave"),
    }
}

#[test]
fn tasks_carry_the_configuration_of_their_nodes() {
    let mut graph = abc();
    let config = NodeConfig {
        retry_policy: Some(RetryPolicy { max_attempts: 7, ..Default::default() }),
        timeout: Some(TimeSpan::from_millis(50)),
        budget_eur: None,
    };
    graph.add_node_with_config("A", append("A"), config);
    let run = DagRun::start(&graph, "t", abc_dag(), TestState::default(), 0, 0).unwrap();
    match run.next_wave(&graph, &mut EventSequence::new()) {
        NextWave::Launch { tasks, .. } => {
            assert_eq!(tasks.len(), 1);
            assert_eq!(tasks[0].index, 0);
            assert_eq!(tasks[0].node_name, "A");
            assert_eq!(tasks[0].retry.max_attempts, 7);
            assert_eq!(tasks[0].timeout, Some(TimeSpan::from_millis(50)));
            assert!(!tasks[0].dynamic);
        }
        _ => panic!("no wave"),
    }
}

fn crashed_dag() -> DAG {
    let mut dag = abc_dag();
    dag.nodes[0].status = NodeStatus::Done;
    dag.nodes[1].status = NodeStatus::Running;
    dag
}

fn resume_crashed(policy: CrashRecoveryPolicy, status: CheckpointStatus) -> Result<Option<(TestState, DAG)>, DagFailure> {
    let mut graph = abc();
    graph.set_crash_recovery_policy(policy);
    let mut world = World::new(graph);
    let state = TestState { value: "A".to_string(), logs: vec![] };
    world.store.save_state("t", state, "B".to_string(), Some(&crashed_dag()), status, None, None, None);
    world.resume_dag("t", abc_dag())
}

#[test]
fn crashed_dags_are_recovered() {
    let running = CheckpointStatus::Running;
    let (state, dag) = resume_crashed(CrashRecoveryPolicy::ResetToPending, running).unwrap().unwrap();
    assert_eq!(state.value, "ABC");
    assert_eq!(statuses(&dag), vec![NodeStatus::Done; 3]);
    let (state, dag) = resume_crashed(CrashRecoveryPolicy::SkipAndContinue, running).unwrap().unwrap();
    assert_eq!(state.value, "AC");
    assert_eq!(statuses(&dag), vec![NodeStatus::Done; 3]);
    let failure = resume_crashed(CrashRecoveryPolicy::FailFast, running).unwrap_err();
    assert_eq!(
        failure.error.message(),
        "Execution error: DAG checkpoint for thread 't' has Running status (crash detected). FailFast policy applied."
    );
    // Without a crash, a node that was running blocks what depends on it.
    let failure = resume_crashed(CrashRecoveryPolicy::ResetToPending, CheckpointStatus::Complete).unwrap_err();
    assert!(matches!(failure.error, TakelnError::DAGDeadlock(names) if names == "C"));
}

#[test]
fn states_are_kept_between_waves() {
    let seen = Rc::new(RefCell::new(vec![]));
    let mut graph = TestGraph::new();
    for name in ["A", "B"] {
        let seen = seen.clone();
        graph.add_node(
            name,
            Box::new(move |mut state: TestState| {
                seen.borrow_mut().push(state.value.clone());
                state.value.push_str(name);
                Ok(NodeOutput::bare(state))
            }),
        );
    }
    let dag = dag_of(vec![(1, "A", vec![]), (2, "B", vec![1])]);
    World::new(graph).run_dag("t", dag, TestState::default(), 0).unwrap();
    assert_eq!(*seen.borrow(), vec!["".to_string(), "A".to_string()]);
}
