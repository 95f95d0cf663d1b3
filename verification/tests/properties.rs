//! Properties of checkpoints and DAG runs over many inputs.
use takeln::clock::now;
use takeln::graph::EventSequence;
use takeln::waves::{AfterWave, Checkpointed, Collected, DagRun, NextWave, Settled};
use takeln::{CheckpointStatus, Graph, GraphError, InMemoryCheckpointer, Merge, NodeOutput, NodeStatus, DAG};

#[derive(Clone, Default, Debug, PartialEq)]
struct PropState {
    value: String,
    counter: u64,
}

impl Merge for PropState {
    fn merge(&mut self, other: Self) {
        self.value.push_str(&other.value);
        self.counter += other.counter;
    }
}

type PropNode = fn(PropState) -> Result<NodeOutput<PropState>, GraphError>;
type PropGraph = Graph<PropNode, PropNode, fn(&PropState) -> String>;

fn incr(mut state: PropState) -> Result<NodeOutput<PropState>, GraphError> {
    state.counter += 1;
    Ok(NodeOutput::bare(state))
}

/// Runs a DAG whose nodes all succeed to its end.
fn run_dag(graph: &PropGraph, dag: DAG, cp: &mut InMemoryCheckpointer<PropState>) -> (PropState, DAG) {
    let mut events = EventSequence::new();
    let mut run = DagRun::start(graph, "prop_dag", dag, PropState::default(), 0, 0).unwrap();
    loop {
        let (mut wave, tasks) = match run.next_wave(graph, &mut events) {
            NextWave::Launch { wave, tasks } => (wave, tasks),
            NextWave::Finished { state, dag, .. } => return (state, dag),
            _ => panic!("stopped"),
        };
        let state = wave.run.state.clone();
        for task in tasks {
            let index = task.index;
            let node = graph.node(&task.node_name).unwrap();
            let (call, _) = task.start(now(), &mut events);
            let output = node(state.clone()).unwrap();
            let (timing, _) = call.succeed(output.meta.cost_eur, now(), &mut events);
            wave = match wave.collect(index, output, timing, graph) {
                Collected::Continue(wave) => wave,
                Collected::Failed { failure, .. } => panic!("{:?}", failure.error),
            };
        }
        let spent = wave.run.spent;
        let merged = match wave.settle(spent, graph) {
            Settled::Merged(merged) => merged,
            Settled::Failed { failure, .. } => panic!("{:?}", failure.error),
        };
        let (merged, save) = match merged.checkpoint(0, graph) {
            Checkpointed::Save { merged, save } => (merged, save),
            Checkpointed::Failed { failure, .. } => panic!("{:?}", failure.error),
        };
        let id = cp.save_state(
            &save.thread_id,
            merged.run.state.clone(),
            save.next_node,
            Some(&merged.run.dag),
            save.status,
            save.yield_request,
            save.claimed_interrupt,
            save.resolved_interrupt,
        );
        run = match merged.saved(id, graph, &mut events) {
            AfterWave::Continue { run, .. } => run,
            AfterWave::Finished { .. } => panic!("stopped"),
        };
    }
}

// Checkpoint fidelity: save then load returns equivalent state
#[test]
fn checkpoint_roundtrip() {
    let long = "aZ09".repeat(25);
    for value in ["", "a", "Zz09", "thequickbrownfox", long.as_str()] {
        for counter in [0u64, 1, 42, 999_999] {
            let mut cp = InMemoryCheckpointer::<PropState>::new();
            let state = PropState { value: value.to_string(), counter };
            let id = cp.save_state(
                "prop_thread",
                state.clone(),
                "next".to_string(),
                None,
                CheckpointStatus::Complete,
                None,
                None,
                None,
            );
            let (loaded, meta, _) = cp.load_state("prop_thread").unwrap();
            assert_eq!(loaded.value, value);
            assert_eq!(loaded.counter, counter);
            assert_eq!(meta.checkpoint_id, id);
        }
    }
}

// DAG completion: all nodes reach Done for any valid linear DAG
#[test]
fn dag_completes_all_nodes() {
    for node_count in 2usize..20 {
        let mut graph = PropGraph::new();
        let mut builder = DAG::builder();
        let names: Vec<String> = (0..node_count).map(|i| format!("n{}", i)).collect();
        for (i, name) in names.iter().enumerate() {
            graph.add_node(name, incr as PropNode);
            if i == 0 {
                builder = builder.node(name, &[]);
            } else {
                builder = builder.node(name, &[&names[i - 1]]);
            }
        }
        let dag = builder.build().unwrap();
        let mut cp = InMemoryCheckpointer::new();
        let (result, dag) = run_dag(&graph, dag, &mut cp);
        assert!(result.counter > 0);
        // Each wave adds the counter that its node returned to the one before it.
        assert_eq!(result.counter, (1 << node_count) - 1);
        for node in &dag.nodes {
            assert_eq!(node.status, NodeStatus::Done);
        }
        assert_eq!(cp.load_state("prop_dag").unwrap().0.counter, result.counter);
    }
}
