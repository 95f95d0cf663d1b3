//! The graph: nodes by name, the edges between them, and how they are run.
use crate::checkpoint_meta::CrashRecoveryPolicy;
use crate::clock::{TimeSpan, Timestamp};
use crate::error::{TakelnError, TakelnErrorView};
use crate::hitl::copy_text;
use crate::money::Eur;
use crate::resource_limits::ResourceLimits;
use crate::retry::RetryPolicy;
use crate::text::{decimal, decimal_text, text_option};
use vstd::hash_map::StringHashMap;
use vstd::hash_set::StringHashSet;
use vstd::prelude::*;
use vstd::string::*;

verus! {

/// Per-node execution configuration that overrides graph-level defaults.
///
/// Any `None` field falls back to the graph-level setting.
#[derive(Debug, Clone, Copy)]
pub struct NodeConfig {
    /// Override the graph-level retry policy for this node.
    pub retry_policy: Option<RetryPolicy>,
    /// Maximum execution duration for this node. If exceeded, the node
    /// is cancelled and treated as a fatal error.
    pub timeout: Option<TimeSpan>,
    /// Per-node budget cap in EUR. Independent of the graph-level budget.
    pub budget_eur: Option<Eur>,
}

impl Default for NodeConfig {
    fn default() -> (config: Self)
        ensures
            config == (NodeConfig { retry_policy: None, timeout: None, budget_eur: None }),
    {
        NodeConfig { retry_policy: None, timeout: None, budget_eur: None }
    }
}

/// Controls how a parallel wave handles individual node failures.
#[derive(Debug, Clone, Copy, PartialEq, Eq, Structural)]
pub enum WaveFailurePolicy {
    /// Abort the entire graph on the first node failure in a wave. This is the default.
    FailFast,
    /// Complete all remaining nodes in the wave, then report partial failure,
    /// with both succeeded and failed node names.
    ContinueOnError,
}

impl Default for WaveFailurePolicy {
    fn default() -> (policy: Self)
        ensures
            policy == WaveFailurePolicy::FailFast,
    {
        WaveFailurePolicy::FailFast
    }
}

/// A generic bound for the payload passed between nodes.
pub trait State: Clone + Send + Sync + 'static {

}

impl<T> State for T where T: Clone + Send + Sync + 'static {

}

/// Metadata returned alongside the updated state by every node.
#[derive(Debug)]
pub struct NodeMeta {
    /// Input tokens consumed by the LLM call (if any).
    pub tokens_in: Option<u32>,
    /// Output tokens produced by the LLM call (if any).
    pub tokens_out: Option<u32>,
    /// Estimated cost in EUR (if any).
    pub cost_eur: Option<Eur>,
    /// LLM model name used (if any).
    pub model: Option<String>,
}

/// The contents of [`NodeMeta`].
pub struct NodeMetaView {
    pub tokens_in: Option<u32>,
    pub tokens_out: Option<u32>,
    pub cost_eur: Option<Eur>,
    pub model: Option<Seq<char>>,
}

impl View for NodeMeta {
    type V = NodeMetaView;

    open spec fn view(&self) -> NodeMetaView {
        NodeMetaView {
            tokens_in: self.tokens_in,
            tokens_out: self.tokens_out,
            cost_eur: self.cost_eur,
            model: text_option(self.model),
        }
    }
}

/// Metadata that says nothing.
pub open spec fn no_meta() -> NodeMetaView {
    NodeMetaView { tokens_in: None, tokens_out: None, cost_eur: None, model: None }
}

impl Default for NodeMeta {
    fn default() -> (meta: Self)
        ensures
            meta@ == no_meta(),
    {
        NodeMeta { tokens_in: None, tokens_out: None, cost_eur: None, model: None }
    }
}

impl Clone for NodeMeta {
    fn clone(&self) -> (meta: Self)
        ensures
            meta == *self,
    {
        NodeMeta {
            tokens_in: self.tokens_in,
            tokens_out: self.tokens_out,
            cost_eur: self.cost_eur,
            model: copy_text(&self.model),
        }
    }
}

impl NodeMeta {
    /// Metadata of an LLM call at a given price.
    pub fn llm(tokens_in: u32, tokens_out: u32, model: &str, cost_eur: Eur) -> (meta: Self)
        ensures
            meta@ == (NodeMetaView {
                tokens_in: Some(tokens_in),
                tokens_out: Some(tokens_out),
                cost_eur: Some(cost_eur),
                model: Some(model@),
            }),
    {
        NodeMeta {
            tokens_in: Some(tokens_in),
            tokens_out: Some(tokens_out),
            cost_eur: Some(cost_eur),
            model: Some(model.to_owned()),
        }
    }
}

/// Wraps the updated state with execution metadata for observability.
#[derive(Debug)]
pub struct NodeOutput<S> {
    /// The mutated state to pass to the next node.
    pub state: S,
    /// Optional event signal for declarative routing: the node to go to.
    pub event: Option<String>,
    /// Optional metadata for span emission.
    pub meta: NodeMeta,
}

impl<S> NodeOutput<S> {
    /// Convenience: state only, no metadata.
    pub fn bare(state: S) -> (output: Self)
        ensures
            output.state == state,
            output.event is None,
            output.meta@ == no_meta(),
    {
        NodeOutput { state, event: None, meta: NodeMeta::default() }
    }

    /// Convenience: state with full LLM metadata.
    pub fn with_llm(
        state: S,
        tokens_in: u32,
        tokens_out: u32,
        model: &str,
        cost_eur: Eur,
    ) -> (output: Self)
        ensures
            output.state == state,
            output.event is None,
            output.meta@ == (NodeMetaView {
                tokens_in: Some(tokens_in),
                tokens_out: Some(tokens_out),
                cost_eur: Some(cost_eur),
                model: Some(model@),
            }),
    {
        NodeOutput {
            state,
            event: None,
            meta: NodeMeta::llm(tokens_in, tokens_out, model, cost_eur),
        }
    }

    /// Attach an event for declarative routing.
    pub fn with_event(self, event: &str) -> (output: Self)
        ensures
            output.state == self.state,
            text_option(output.event) == Some(event@),
            output.meta == self.meta,
    {
        NodeOutput { state: self.state, event: Some(event.to_owned()), meta: self.meta }
    }
}

/// A node implemented as a function.
#[derive(Debug)]
pub struct FnNode<F> {
    f: F,
}

impl<F> FnNode<F> {
    /// The function that runs when the node is called.
    pub closed spec fn spec_function(self) -> F {
        self.f
    }

    /// A node that runs `f`.
    pub fn new(f: F) -> (node: Self)
        ensures
            node.spec_function() == f,
    {
        FnNode { f }
    }

    /// The function that runs when the node is called.
    pub fn function(&self) -> (f: &F)
        ensures
            *f == self.spec_function(),
    {
        &self.f
    }
}

/// A transition out of a node: to a fixed node, or to the one that a condition
/// on the state names.
pub enum Edge<C> {
    Unconditional(String),
    Conditional(C),
}

/// The contents of an [`Edge`].
pub enum EdgeView<C> {
    Unconditional(Seq<char>),
    Conditional(C),
}

/// The contents of an edge.
pub open spec fn edge_view<C>(edge: Edge<C>) -> EdgeView<C> {
    match edge {
        Edge::Unconditional(target) => EdgeView::Unconditional(target@),
        Edge::Conditional(condition) => EdgeView::Conditional(condition),
    }
}

/// The name that stands for the end of a graph.
pub open spec fn end_name() -> Seq<char> {
    "__END__"@
}

/// Events broadcast during graph execution.
#[derive(Debug)]
#[allow(inconsistent_fields)]
pub enum GraphEvent {
    NodeStarted {
        thread_id: String,
        node_name: String,
        started_at: Timestamp,
        sequence_number: u64,
    },
    NodeFinished {
        thread_id: String,
        node_name: String,
        duration_ms: u64,
        status: String,
        cost: Option<Eur>,
        sequence_number: u64,
    },
    GraphFinished { thread_id: String, cost: Eur, sequence_number: u64 },
}

/// The contents of a [`GraphEvent`].
#[allow(inconsistent_fields)]
pub enum GraphEventView {
    NodeStarted {
        thread_id: Seq<char>,
        node_name: Seq<char>,
        started_at: Timestamp,
        sequence_number: u64,
    },
    NodeFinished {
        thread_id: Seq<char>,
        node_name: Seq<char>,
        duration_ms: u64,
        status: Seq<char>,
        cost: Option<Eur>,
        sequence_number: u64,
    },
    GraphFinished { thread_id: Seq<char>, cost: Eur, sequence_number: u64 },
}

impl View for GraphEvent {
    type V = GraphEventView;

    open spec fn view(&self) -> GraphEventView {
        match self {
            GraphEvent::NodeStarted { thread_id, node_name, started_at, sequence_number }
                => GraphEventView::NodeStarted {
                thread_id: thread_id@,
                node_name: node_name@,
                started_at: *started_at,
                sequence_number: *sequence_number,
            },
            GraphEvent::NodeFinished {
                thread_id,
                node_name,
                duration_ms,
                status,
                cost,
                sequence_number,
            } => GraphEventView::NodeFinished {
                thread_id: thread_id@,
                node_name: node_name@,
                duration_ms: *duration_ms,
                status: status@,
                cost: *cost,
                sequence_number: *sequence_number,
            },
            GraphEvent::GraphFinished { thread_id, cost, sequence_number }
                => GraphEventView::GraphFinished {
                thread_id: thread_id@,
                cost: *cost,
                sequence_number: *sequence_number,
            },
        }
    }
}

/// The numbering of a graph's events.
#[derive(Debug)]
pub struct EventSequence {
    /// The number of the next event.
    pub next: u64,
}

/// The number after `n`, which starts over after the largest.
pub open spec fn number_after(n: u64) -> u64 {
    if n == u64::MAX {
        0
    } else {
        (n + 1) as u64
    }
}

impl EventSequence {
    /// A numbering that starts at zero.
    pub fn new() -> (sequence: Self)
        ensures
            sequence.next == 0,
    {
        EventSequence { next: 0 }
    }

    /// Takes the next number.
    pub fn next_seq(&mut self) -> (number: u64)
        ensures
            number == old(self).next,
            final(self).next == number_after(old(self).next),
    {
        let number: u64 = self.next;
        self.next = number.wrapping_add(1);
        number
    }
}

/// Numbers taken one after the other grow by one, so no two of the first
/// 2^64 events share one.
pub proof fn law_numbers_grow(n: u64)
    requires
        n < u64::MAX,
    ensures
        number_after(n) == n + 1,
        number_after(n) > n,
{
}

/// The orchestrator graph: the registry of named nodes, their edges, and the
/// rules for running them. `N` stands for regular nodes, `D` for dynamic ones,
/// `C` for the conditions on edges.
#[verifier::reject_recursive_types(N)]
#[verifier::reject_recursive_types(D)]
#[verifier::reject_recursive_types(C)]
pub struct Graph<N, D, C> {
    nodes: StringHashMap<N>,
    dynamic_nodes: StringHashMap<D>,
    edges: StringHashMap<Edge<C>>,
    retry_policy: RetryPolicy,
    budget_eur: Option<Eur>,
    interrupt_before: StringHashSet,
    interrupt_after: StringHashSet,
    crash_recovery_policy: CrashRecoveryPolicy,
    node_configs: StringHashMap<NodeConfig>,
    wave_failure_policy: WaveFailurePolicy,
    resource_limits: ResourceLimits,
}

/// The contents of a [`Graph`].
pub struct GraphView<N, D, C> {
    pub nodes: Map<Seq<char>, N>,
    pub dynamic_nodes: Map<Seq<char>, D>,
    pub edges: Map<Seq<char>, EdgeView<C>>,
    pub retry_policy: RetryPolicy,
    pub budget_eur: Option<Eur>,
    pub interrupt_before: Set<Seq<char>>,
    pub interrupt_after: Set<Seq<char>>,
    pub crash_recovery_policy: CrashRecoveryPolicy,
    pub node_configs: Map<Seq<char>, NodeConfig>,
    pub wave_failure_policy: WaveFailurePolicy,
    pub resource_limits: ResourceLimits,
}

impl<N, D, C> View for Graph<N, D, C> {
    type V = GraphView<N, D, C>;

    closed spec fn view(&self) -> GraphView<N, D, C> {
        GraphView {
            nodes: self.nodes@,
            dynamic_nodes: self.dynamic_nodes@,
            edges: self.edges@.map_values(|e: Edge<C>| edge_view(e)),
            retry_policy: self.retry_policy,
            budget_eur: self.budget_eur,
            interrupt_before: self.interrupt_before@,
            interrupt_after: self.interrupt_after@,
            crash_recovery_policy: self.crash_recovery_policy,
            node_configs: self.node_configs@,
            wave_failure_policy: self.wave_failure_policy,
            resource_limits: self.resource_limits,
        }
    }
}

impl<N, D, C> GraphView<N, D, C> {
    /// Whether a name is registered as a node of either kind.
    pub open spec fn registered(self, name: Seq<char>) -> bool {
        self.dynamic_nodes.contains_key(name) || self.nodes.contains_key(name)
    }

    /// The retry policy in force for a node.
    pub open spec fn retry_for(self, name: Seq<char>) -> RetryPolicy {
        if self.node_configs.contains_key(name) {
            match self.node_configs[name].retry_policy {
                Some(policy) => policy,
                None => self.retry_policy,
            }
        } else {
            self.retry_policy
        }
    }

    /// The time limit in force for a node.
    pub open spec fn timeout_for(self, name: Seq<char>) -> Option<TimeSpan> {
        if self.node_configs.contains_key(name) {
            self.node_configs[name].timeout
        } else {
            None
        }
    }

    /// The budget of a node of its own.
    pub open spec fn node_budget(self, name: Seq<char>) -> Option<Eur> {
        if self.node_configs.contains_key(name) {
            self.node_configs[name].budget_eur
        } else {
            None
        }
    }

    /// Whether a payload of so many bytes may be checkpointed.
    pub open spec fn fits(self, bytes: usize) -> bool {
        bytes <= self.resource_limits.max_checkpoint_bytes
    }

    /// The error for a payload that may not be checkpointed.
    pub open spec fn too_large(self, bytes: usize) -> TakelnErrorView {
        TakelnErrorView::ExecutionError(
            "Checkpoint payload "@ + decimal(bytes as nat)
                + " bytes exceeds max_checkpoint_bytes limit of "@ + decimal(
                self.resource_limits.max_checkpoint_bytes as nat,
            ),
        )
    }
}

/// A graph with no nodes and the default rules.
pub open spec fn empty_graph<N, D, C>() -> GraphView<N, D, C> {
    GraphView {
        nodes: Map::empty(),
        dynamic_nodes: Map::empty(),
        edges: Map::empty(),
        retry_policy: RetryPolicy {
            max_attempts: 3,
            base_delay_ms: 500,
            max_delay_ms: 30_000,
            jitter: true,
        },
        budget_eur: None,
        interrupt_before: Set::empty(),
        interrupt_after: Set::empty(),
        crash_recovery_policy: CrashRecoveryPolicy::ResetToPending,
        node_configs: Map::empty(),
        wave_failure_policy: WaveFailurePolicy::FailFast,
        resource_limits: ResourceLimits {
            max_concurrent_nodes: 64,
            max_execution_records: 10_000,
            max_checkpoint_bytes: 10_485_760,
            max_dag_nodes: 10_000,
            max_sequential_steps: 1_000,
        },
    }
}

/// Whether every condition of the edges can be asked about every state.
pub open spec fn answers<S, C: Fn(&S) -> String>(edges: Map<Seq<char>, EdgeView<C>>) -> bool {
    forall|name: Seq<char>, state: &S|
        edges.contains_key(name) && edges[name] is Conditional ==> (
        #[trigger] edges[name]->Conditional_0).requires((state,))
}

/// Whether an edge leads from a state to `next`.
pub open spec fn leads_to<S, C: Fn(&S) -> String>(
    edge: EdgeView<C>,
    state: S,
    next: Seq<char>,
) -> bool {
    match edge {
        EdgeView::Unconditional(target) => next == target,
        EdgeView::Conditional(condition) => exists|answer: String| #[trigger]
            condition.ensures((&state,), answer) && answer@ == next,
    }
}

/// Whether the node after `name` may be `next`: the one its edge leads to, or
/// the end where it has none.
pub open spec fn routes_to<S, C: Fn(&S) -> String>(
    edges: Map<Seq<char>, EdgeView<C>>,
    name: Seq<char>,
    state: S,
    next: Seq<char>,
) -> bool {
    if edges.contains_key(name) {
        leads_to(edges[name], state, next)
    } else {
        next == end_name()
    }
}

impl<N, D, C> Graph<N, D, C> {
    /// Create a graph with no nodes and the default rules.
    pub fn new() -> (graph: Self)
        ensures
            graph@ == empty_graph::<N, D, C>(),
    {
        let graph = Graph {
            nodes: StringHashMap::new(),
            dynamic_nodes: StringHashMap::new(),
            edges: StringHashMap::new(),
            retry_policy: RetryPolicy::default(),
            budget_eur: None,
            interrupt_before: StringHashSet::new(),
            interrupt_after: StringHashSet::new(),
            crash_recovery_policy: CrashRecoveryPolicy::default(),
            node_configs: StringHashMap::new(),
            wave_failure_policy: WaveFailurePolicy::default(),
            resource_limits: ResourceLimits::default(),
        };
        assert(graph@.edges =~= Map::<Seq<char>, EdgeView<C>>::empty());
        graph
    }

    /// Create a builder for constructing a graph with a fluent API.
    pub fn builder() -> (builder: GraphBuilder<N, D, C>)
        ensures
            builder@ == empty_graph::<N, D, C>(),
    {
        GraphBuilder { graph: Graph::new() }
    }

    /// Add a node where execution will interrupt BEFORE calling it.
    pub fn add_interrupt_before(&mut self, node: &str)
        ensures
            final(self)@ == (GraphView {
                interrupt_before: old(self)@.interrupt_before.insert(node@),
                ..old(self)@
            }),
    {
        self.interrupt_before.insert(node.to_owned());
    }

    /// Add a node where execution will interrupt AFTER calling it.
    pub fn add_interrupt_after(&mut self, node: &str)
        ensures
            final(self)@ == (GraphView {
                interrupt_after: old(self)@.interrupt_after.insert(node@),
                ..old(self)@
            }),
    {
        self.interrupt_after.insert(node.to_owned());
    }

    /// Set the crash recovery policy for handling checkpoints with `Running` status.
    pub fn set_crash_recovery_policy(&mut self, policy: CrashRecoveryPolicy)
        ensures
            final(self)@ == (GraphView { crash_recovery_policy: policy, ..old(self)@ }),
    {
        self.crash_recovery_policy = policy;
    }

    /// Set a global retry policy for all retryable nodes in this graph.
    pub fn set_retry_policy(&mut self, policy: RetryPolicy)
        ensures
            final(self)@ == (GraphView { retry_policy: policy, ..old(self)@ }),
    {
        self.retry_policy = policy;
    }

    /// Set a budget cap in EUR. If cumulative node costs exceed it, execution is
    /// aborted.
    pub fn set_budget_eur(&mut self, budget: Eur)
        ensures
            final(self)@ == (GraphView { budget_eur: Some(budget), ..old(self)@ }),
    {
        self.budget_eur = Some(budget);
    }

    /// Register a node in the graph.
    pub fn add_node(&mut self, name: &str, node: N)
        ensures
            final(self)@ == (GraphView {
                nodes: old(self)@.nodes.insert(name@, node),
                ..old(self)@
            }),
    {
        self.nodes.insert(name.to_owned(), node);
    }

    /// Register a node with per-node execution configuration.
    pub fn add_node_with_config(&mut self, name: &str, node: N, config: NodeConfig)
        ensures
            final(self)@ == (GraphView {
                nodes: old(self)@.nodes.insert(name@, node),
                node_configs: old(self)@.node_configs.insert(name@, config),
                ..old(self)@
            }),
    {
        self.nodes.insert(name.to_owned(), node);
        self.node_configs.insert(name.to_owned(), config);
    }

    /// Register a dynamic node that can invoke child nodes at runtime.
    pub fn add_dynamic_node(&mut self, name: &str, node: D)
        ensures
            final(self)@ == (GraphView {
                dynamic_nodes: old(self)@.dynamic_nodes.insert(name@, node),
                ..old(self)@
            }),
    {
        self.dynamic_nodes.insert(name.to_owned(), node);
    }

    /// Set the wave failure policy for parallel DAG execution.
    pub fn set_wave_failure_policy(&mut self, policy: WaveFailurePolicy)
        ensures
            final(self)@ == (GraphView { wave_failure_policy: policy, ..old(self)@ }),
    {
        self.wave_failure_policy = policy;
    }

    /// Appends a static edge transition out of the source node.
    pub fn add_edge(&mut self, source: &str, target: &str)
        ensures
            final(self)@ == (GraphView {
                edges: old(self)@.edges.insert(source@, EdgeView::Unconditional(target@)),
                ..old(self)@
            }),
    {
        let ghost before = self@.edges;
        self.edges.insert(source.to_owned(), Edge::Unconditional(target.to_owned()));
        assert(self@.edges =~= before.insert(source@, EdgeView::Unconditional(target@)));
    }

    /// Appends a transition out of the source node that a condition on the
    /// state decides.
    pub fn add_conditional_edge(&mut self, source: &str, condition: C)
        ensures
            final(self)@ == (GraphView {
                edges: old(self)@.edges.insert(source@, EdgeView::Conditional(condition)),
                ..old(self)@
            }),
    {
        let ghost before = self@.edges;
        self.edges.insert(source.to_owned(), Edge::Conditional(condition));
        assert(self@.edges =~= before.insert(source@, EdgeView::Conditional(condition)));
    }

    /// Set resource limits for graph execution.
    pub fn set_resource_limits(&mut self, limits: ResourceLimits)
        ensures
            final(self)@ == (GraphView { resource_limits: limits, ..old(self)@ }),
    {
        self.resource_limits = limits;
    }

    /// The regular node of a name.
    pub fn node(&self, name: &str) -> (node: Option<&N>)
        ensures
            match node {
                Some(n) => self@.nodes.contains_key(name@) && *n == self@.nodes[name@],
                None => !self@.nodes.contains_key(name@),
            },
    {
        self.nodes.get(name)
    }

    /// The dynamic node of a name.
    pub fn dynamic_node(&self, name: &str) -> (node: Option<&D>)
        ensures
            match node {
                Some(n) => self@.dynamic_nodes.contains_key(name@) && *n
                    == self@.dynamic_nodes[name@],
                None => !self@.dynamic_nodes.contains_key(name@),
            },
    {
        self.dynamic_nodes.get(name)
    }

    /// The resource limits in force.
    pub fn limits(&self) -> (limits: ResourceLimits)
        ensures
            limits == self@.resource_limits,
    {
        self.resource_limits
    }

    /// The budget in force.
    pub fn budget(&self) -> (budget: Option<Eur>)
        ensures
            budget == self@.budget_eur,
    {
        self.budget_eur
    }

    /// How waves handle failures.
    pub fn wave_policy(&self) -> (policy: WaveFailurePolicy)
        ensures
            policy == self@.wave_failure_policy,
    {
        self.wave_failure_policy
    }

    /// How crashes are recovered from.
    pub fn crash_policy(&self) -> (policy: CrashRecoveryPolicy)
        ensures
            policy == self@.crash_recovery_policy,
    {
        self.crash_recovery_policy
    }

    /// Whether execution interrupts before a node.
    pub fn interrupts_before(&self, name: &str) -> (interrupts: bool)
        ensures
            interrupts == self@.interrupt_before.contains(name@),
    {
        self.interrupt_before.contains(name)
    }

    /// Whether execution interrupts after a node.
    pub fn interrupts_after(&self, name: &str) -> (interrupts: bool)
        ensures
            interrupts == self@.interrupt_after.contains(name@),
    {
        self.interrupt_after.contains(name)
    }

    /// Whether a name is registered as a dynamic node.
    pub fn is_dynamic(&self, name: &str) -> (dynamic: bool)
        ensures
            dynamic == self@.dynamic_nodes.contains_key(name@),
    {
        self.dynamic_nodes.contains_key(name)
    }

    /// Whether a name is registered as a node of either kind.
    pub fn is_registered(&self, name: &str) -> (registered: bool)
        ensures
            registered == self@.registered(name@),
    {
        self.dynamic_nodes.contains_key(name) || self.nodes.contains_key(name)
    }

    /// The retry policy, time limit and budget in force for a node.
    pub fn effective_config(&self, name: &str) -> (config: (
        RetryPolicy,
        Option<TimeSpan>,
        Option<Eur>,
    ))
        ensures
            config.0 == self@.retry_for(name@),
            config.1 == self@.timeout_for(name@),
            config.2 == self@.node_budget(name@),
    {
        match self.node_configs.get(name) {
            Some(config) => (
                match config.retry_policy {
                    Some(policy) => policy,
                    None => self.retry_policy,
                },
                config.timeout,
                config.budget_eur,
            ),
            None => (self.retry_policy, None, None),
        }
    }

    /// Check that a state of so many bytes doesn't exceed the max checkpoint
    /// payload size.
    pub fn check_checkpoint_size(&self, bytes: usize) -> (checked: Result<(), TakelnError>)
        ensures
            checked is Ok <==> self@.fits(bytes),
            checked matches Err(error) ==> error@ == self@.too_large(bytes),
    {
        if bytes > self.resource_limits.max_checkpoint_bytes {
            let mut text = String::from_str("Checkpoint payload ");
            text.append(decimal_text(bytes as u64).as_str());
            text.append(" bytes exceeds max_checkpoint_bytes limit of ");
            text.append(decimal_text(self.resource_limits.max_checkpoint_bytes as u64).as_str());
            Err(TakelnError::ExecutionError(text))
        } else {
            Ok(())
        }
    }

    /// The node that the edge out of `name` leads to, if it has an edge.
    pub fn edge_target<S>(&self, name: &str, state: &S) -> (next: Option<String>) where
        C: Fn(&S) -> String,

        requires
            answers::<S, C>(self@.edges),
        ensures
            match next {
                Some(target) => self@.edges.contains_key(name@) && leads_to::<S, C>(
                    self@.edges[name@],
                    *state,
                    target@,
                ),
                None => !self@.edges.contains_key(name@),
            },
    {
        match self.edges.get(name) {
            Some(edge) => {
                assert(self@.edges[name@] == edge_view(*edge));
                match edge {
                    Edge::Unconditional(target) => Some(target.clone()),
                    Edge::Conditional(condition) => {
                        assert(self@.edges[name@]->Conditional_0 == *condition);
                        assert(condition.requires((state,)));
                        Some(condition(state))
                    },
                }
            },
            None => None,
        }
    }

    /// The node after `name`: where its edge leads, or the end.
    pub fn route<S>(&self, name: &str, state: &S) -> (next: String) where C: Fn(&S) -> String,
        requires
            answers::<S, C>(self@.edges),
        ensures
            routes_to::<S, C>(self@.edges, name@, *state, next@),
    {
        match self.edge_target(name, state) {
            Some(target) => target,
            None => "__END__".to_owned(),
        }
    }
}

/// Builder for constructing graphs with a fluent API.
#[verifier::reject_recursive_types(N)]
#[verifier::reject_recursive_types(D)]
#[verifier::reject_recursive_types(C)]
pub struct GraphBuilder<N, D, C> {
    graph: Graph<N, D, C>,
}

impl<N, D, C> View for GraphBuilder<N, D, C> {
    type V = GraphView<N, D, C>;

    closed spec fn view(&self) -> GraphView<N, D, C> {
        self.graph@
    }
}

impl<N, D, C> GraphBuilder<N, D, C> {
    /// Add a node to the graph.
    pub fn node(self, name: &str, node: N) -> (builder: Self)
        ensures
            builder@ == (GraphView { nodes: self@.nodes.insert(name@, node), ..self@ }),
    {
        let mut graph = self.graph;
        graph.add_node(name, node);
        GraphBuilder { graph }
    }

    /// Add a node with per-node configuration.
    pub fn node_with_config(self, name: &str, node: N, config: NodeConfig) -> (builder: Self)
        ensures
            builder@ == (GraphView {
                nodes: self@.nodes.insert(name@, node),
                node_configs: self@.node_configs.insert(name@, config),
                ..self@
            }),
    {
        let mut graph = self.graph;
        graph.add_node_with_config(name, node, config);
        GraphBuilder { graph }
    }

    /// Add a dynamic node.
    pub fn dynamic_node(self, name: &str, node: D) -> (builder: Self)
        ensures
            builder@ == (GraphView {
                dynamic_nodes: self@.dynamic_nodes.insert(name@, node),
                ..self@
            }),
    {
        let mut graph = self.graph;
        graph.add_dynamic_node(name, node);
        GraphBuilder { graph }
    }

    /// Add a static edge between two nodes.
    pub fn edge(self, source: &str, target: &str) -> (builder: Self)
        ensures
            builder@ == (GraphView {
                edges: self@.edges.insert(source@, EdgeView::Unconditional(target@)),
                ..self@
            }),
    {
        let mut graph = self.graph;
        graph.add_edge(source, target);
        GraphBuilder { graph }
    }

    /// Add a conditional edge.
    pub fn conditional_edge(self, source: &str, condition: C) -> (builder: Self)
        ensures
            builder@ == (GraphView {
                edges: self@.edges.insert(source@, EdgeView::Conditional(condition)),
                ..self@
            }),
    {
        let mut graph = self.graph;
        graph.add_conditional_edge(source, condition);
        GraphBuilder { graph }
    }

    /// Set the global retry policy.
    pub fn retry_policy(self, policy: RetryPolicy) -> (builder: Self)
        ensures
            builder@ == (GraphView { retry_policy: policy, ..self@ }),
    {
        let mut graph = self.graph;
        graph.set_retry_policy(policy);
        GraphBuilder { graph }
    }

    /// Set the global budget cap in EUR.
    pub fn budget_eur(self, budget: Eur) -> (builder: Self)
        ensures
            builder@ == (GraphView { budget_eur: Some(budget), ..self@ }),
    {
        let mut graph = self.graph;
        graph.set_budget_eur(budget);
        GraphBuilder { graph }
    }

    /// Set the crash recovery policy.
    pub fn crash_recovery_policy(self, policy: CrashRecoveryPolicy) -> (builder: Self)
        ensures
            builder@ == (GraphView { crash_recovery_policy: policy, ..self@ }),
    {
        let mut graph = self.graph;
        graph.set_crash_recovery_policy(policy);
        GraphBuilder { graph }
    }

    /// Set the wave failure policy.
    pub fn wave_failure_policy(self, policy: WaveFailurePolicy) -> (builder: Self)
        ensures
            builder@ == (GraphView { wave_failure_policy: policy, ..self@ }),
    {
        let mut graph = self.graph;
        graph.set_wave_failure_policy(policy);
        GraphBuilder { graph }
    }

    /// Add an interrupt-before hook.
    pub fn interrupt_before(self, node: &str) -> (builder: Self)
        ensures
            builder@ == (GraphView {
                interrupt_before: self@.interrupt_before.insert(node@),
                ..self@
            }),
    {
        let mut graph = self.graph;
        graph.add_interrupt_before(node);
        GraphBuilder { graph }
    }

    /// Add an interrupt-after hook.
    pub fn interrupt_after(self, node: &str) -> (builder: Self)
        ensures
            builder@ == (GraphView {
                interrupt_after: self@.interrupt_after.insert(node@),
                ..self@
            }),
    {
        let mut graph = self.graph;
        graph.add_interrupt_after(node);
        GraphBuilder { graph }
    }

    /// Set resource limits.
    pub fn resource_limits(self, limits: ResourceLimits) -> (builder: Self)
        ensures
            builder@ == (GraphView { resource_limits: limits, ..self@ }),
    {
        let mut graph = self.graph;
        graph.set_resource_limits(limits);
        GraphBuilder { graph }
    }

    /// Consume the builder and return the configured graph.
    pub fn build(self) -> (graph: Graph<N, D, C>)
        ensures
            graph@ == self@,
    {
        self.graph
    }
}

/// What a graph answers of its rules: a payload may be saved exactly where it is
/// no larger than the limit; a name is registered where a node of either sort has
/// it; a node runs under its own configuration where it has one, and else under
/// that of the graph.
pub proof fn law_rules_are_those_of_the_graph<N, D, C>(
    graph: &Graph<N, D, C>,
    name: &str,
    bytes: usize,
    checked: Result<(), TakelnError>,
    registered: bool,
    config: (RetryPolicy, Option<TimeSpan>, Option<Eur>),
)
    requires
        call_ensures(Graph::<N, D, C>::check_checkpoint_size, (graph, bytes), checked),
        call_ensures(Graph::<N, D, C>::is_registered, (graph, name), registered),
        call_ensures(Graph::<N, D, C>::effective_config, (graph, name), config),
    ensures
        checked is Ok <==> bytes <= graph@.resource_limits.max_checkpoint_bytes,
        registered <==> graph@.nodes.contains_key(name@) || graph@.dynamic_nodes.contains_key(
            name@,
        ),
        graph@.node_configs.contains_key(name@) ==> {
            let own = graph@.node_configs[name@];
            &&& own.retry_policy is Some ==> config.0 == own.retry_policy->0
            &&& own.retry_policy is None ==> config.0 == graph@.retry_policy
            &&& config.1 == own.timeout
            &&& config.2 == own.budget_eur
        },
        !graph@.node_configs.contains_key(name@) ==> config.0 == graph@.retry_policy
            && config.1 is None && config.2 is None,
{
}

/// Where the way leads from a node: along its edge, to the node that the edge
/// names or that its condition answers about the state, and to the end where it
/// has none.
pub proof fn law_routes_follow_edges<S, N, D, C: Fn(&S) -> String>(
    graph: &Graph<N, D, C>,
    name: &str,
    state: &S,
    next: String,
)
    requires
        answers::<S, C>(graph@.edges),
        call_ensures(Graph::<N, D, C>::route::<S>, (graph, name, state), next),
    ensures
        !graph@.edges.contains_key(name@) ==> next@ == "__END__"@,
        graph@.edges.contains_key(name@) ==> match graph@.edges[name@] {
            EdgeView::Unconditional(target) => next@ == target,
            EdgeView::Conditional(condition) => exists|answer: String| #[trigger]
                condition.ensures((state,), answer) && answer@ == next@,
        },
{
}

/// The rules of a graph to which nothing was added.
pub proof fn law_new_graphs_have_the_defaults<N, D, C>(graph: Graph<N, D, C>)
    requires
        call_ensures(Graph::<N, D, C>::new, (), graph),
    ensures
        forall|name: Seq<char>|
            !(#[trigger] graph@.nodes.contains_key(name)) && !graph@.dynamic_nodes.contains_key(
                name,
            ) && !graph@.edges.contains_key(name) && !graph@.node_configs.contains_key(name)
                && !graph@.interrupt_before.contains(name) && !graph@.interrupt_after.contains(
                name,
            ),
        graph@.budget_eur is None,
        graph@.retry_policy.max_attempts == 3,
        graph@.retry_policy.base_delay_ms == 500,
        graph@.retry_policy.max_delay_ms == 30_000,
        graph@.retry_policy.jitter,
        graph@.crash_recovery_policy == CrashRecoveryPolicy::ResetToPending,
        graph@.wave_failure_policy == WaveFailurePolicy::FailFast,
        graph@.resource_limits.max_concurrent_nodes == 64,
        graph@.resource_limits.max_execution_records == 10_000,
        graph@.resource_limits.max_checkpoint_bytes == 10_485_760,
        graph@.resource_limits.max_dag_nodes == 10_000,
        graph@.resource_limits.max_sequential_steps == 1_000,
{
}

} // verus!
