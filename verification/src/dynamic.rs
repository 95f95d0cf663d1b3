//! Dynamic node execution primitives.
//!
//! Dynamic nodes can invoke child nodes at runtime, enabling patterns like
//! loops, fan-out over dynamic lists, and conditional sub-workflows that aren't
//! known at graph construction time.
use crate::context::NodeContext;
use crate::error::{GraphError, GraphErrorView};
use crate::graph::NodeOutput;
use crate::hitl::copy_text;
use crate::identity::{hyphenated, is_random_id};
use tokio_util::sync::CancellationToken;
use vstd::hash_map::StringHashMap;
use vstd::prelude::*;
use vstd::string::*;

verus! {

/// A closure-based dynamic node.
#[derive(Debug)]
pub struct DynamicFnNode<F> {
    f: F,
}

impl<F> DynamicFnNode<F> {
    /// The function that runs when the node is called.
    pub closed spec fn spec_function(self) -> F {
        self.f
    }

    /// A dynamic node that runs `f`.
    pub fn new(f: F) -> (node: Self)
        ensures
            node.spec_function() == f,
    {
        DynamicFnNode { f }
    }

    /// The function that runs when the node is called.
    pub fn function(&self) -> (f: &F)
        ensures
            *f == self.spec_function(),
    {
        &self.f
    }
}

/// The error for a child that is not a regular node of the graph.
pub open spec fn no_such_child(child_name: Seq<char>) -> GraphErrorView {
    GraphErrorView::Fatal("Child node '"@ + child_name + "' not found in graph"@)
}

/// The nodes that a dynamic node may call as its children.
#[verifier::reject_recursive_types(N)]
pub struct ChildRunner<N> {
    nodes: StringHashMap<N>,
}

impl<N> View for ChildRunner<N> {
    type V = Map<Seq<char>, N>;

    /// The children by name.
    closed spec fn view(&self) -> Map<Seq<char>, N> {
        self.nodes@
    }
}

impl<N> ChildRunner<N> {
    /// A runner without children.
    pub fn new() -> (runner: Self)
        ensures
            runner@ == Map::<Seq<char>, N>::empty(),
    {
        ChildRunner { nodes: StringHashMap::new() }
    }

    /// Adds a child.
    pub fn add_child(&mut self, name: &str, node: N)
        ensures
            final(self)@ == old(self)@.insert(name@, node),
    {
        self.nodes.insert(name.to_owned(), node);
    }

    /// Finds the node that is called as a child.
    pub fn find_child(&self, child_name: &str) -> (child: Result<&N, GraphError>)
        ensures
            match child {
                Ok(node) => self@.contains_key(child_name@) && *node == self@[child_name@],
                Err(error) => !self@.contains_key(child_name@) && error@ == no_such_child(
                    child_name@,
                ),
            },
    {
        match self.nodes.get(child_name) {
            Some(node) => Ok(node),
            None => {
                let mut text = String::from_str("Child node '");
                text.append(child_name);
                text.append("' not found in graph");
                Err(GraphError::Fatal(text))
            },
        }
    }
}

/// The context of a child: it inherits the identity of its parent, starts at
/// the first attempt and has no resumed input.
pub fn child_context(
    parent: &NodeContext,
    child_name: &str,
    cancellation: Option<CancellationToken>,
) -> (context: NodeContext)
    ensures
        context.keyed(),
        context.thread_id == parent.thread_id,
        context.node_name@ == child_name@,
        context.attempt == 0,
        exists|id: u128| is_random_id(id) && context.attempt_id@ == #[trigger] hyphenated(id),
        context.last_checkpoint_id == parent.last_checkpoint_id,
        context.budget_remaining_eur == parent.budget_remaining_eur,
        context.cancellation == cancellation,
        context.resumed_input is None,
{
    NodeContext::new(
        parent.thread_id.clone(),
        child_name.to_owned(),
        0,
        copy_text(&parent.last_checkpoint_id),
        parent.budget_remaining_eur,
        cancellation,
        None,
    )
}

/// What a dynamic node sees of a child's outcome: a child cannot yield, since
/// dynamic execution is atomic; everything else passes through.
pub fn child_outcome<S>(outcome: Result<NodeOutput<S>, GraphError>) -> (seen: Result<
    NodeOutput<S>,
    GraphError,
>)
    ensures
        match outcome {
            Err(GraphError::Yield(request)) => seen is Err && seen->Err_0@
                == (GraphErrorView::YieldInDynamicNode { interrupt_id: request.interrupt_id@ }),
            other => seen == other,
        },
{
    match outcome {
        Err(GraphError::Yield(request)) => Err(
            GraphError::YieldInDynamicNode { interrupt_id: request.interrupt_id },
        ),
        other => other,
    }
}

/// What a dynamic node sees of a child's outcome, reduced to the state.
pub fn child_state<S>(outcome: Result<NodeOutput<S>, GraphError>) -> (seen: Result<S, GraphError>)
    ensures
        match outcome {
            Ok(output) => seen == Ok::<S, GraphError>(output.state),
            Err(GraphError::Yield(request)) => seen is Err && seen->Err_0@
                == (GraphErrorView::YieldInDynamicNode { interrupt_id: request.interrupt_id@ }),
            Err(error) => seen == Err::<S, GraphError>(error),
        },
{
    match child_outcome(outcome) {
        Ok(output) => Ok(output.state),
        Err(error) => Err(error),
    }
}

/// Whether what a dynamic node sees of an outcome may be a yield: never.
pub proof fn law_children_never_yield<S>(
    outcome: Result<NodeOutput<S>, GraphError>,
    seen: Result<NodeOutput<S>, GraphError>,
)
    requires
        call_ensures(child_outcome::<S>, (outcome,), seen),
    ensures
        !(seen matches Err(error) && error is Yield),
{
}

} // verus!
