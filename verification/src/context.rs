//! Execution context passed to every node invocation.
use crate::identity::{derive_id, fresh_id_text, hyphenated, id_text, is_random_id, named_id, NAMESPACE_OID};
use crate::json::JsonValue;
use crate::money::Eur;
use crate::text::text_option;
use tokio_util::sync::CancellationToken;
use vstd::prelude::*;
use vstd::string::*;

verus! {

/// The cancellation token of `tokio_util`, which contexts carry to nodes.
#[verifier::external_type_specification]
#[verifier::external_body]
pub struct ExCancellationToken(tokio_util::sync::CancellationToken);

/// Execution context provided to each node invocation.
///
/// Contains runtime metadata for idempotency, observability, budget awareness,
/// and cancellation.
///
/// # Idempotency
///
/// Use `execution_id` as an idempotency key for side effects to guard against
/// duplicate execution after crash recovery. Unlike `attempt_id` it is stable
/// across retries: it only changes when the logical checkpoint changes.
#[derive(Debug)]
pub struct NodeContext {
    /// The thread/session ID for this execution.
    pub thread_id: String,
    /// The name of the currently executing node.
    pub node_name: String,
    /// Current retry attempt (0-indexed; 0 = first attempt).
    pub attempt: u8,
    /// Stable ID for this logical node execution, derived from the thread, the
    /// node and the last checkpoint.
    pub execution_id: String,
    /// Unique ID for this specific attempt (changes on every retry).
    pub attempt_id: String,
    /// The checkpoint ID from the most recent save, if any.
    pub last_checkpoint_id: Option<String>,
    /// Remaining budget in EUR, if a budget is configured.
    pub budget_remaining_eur: Option<Eur>,
    /// Cancellation token.
    pub cancellation: Option<CancellationToken>,
    /// Input provided when resuming from a yield (only set on re-entry).
    pub resumed_input: Option<JsonValue>,
}

/// The name that an execution identifier is derived from.
pub open spec fn execution_seed(
    thread_id: Seq<char>,
    node_name: Seq<char>,
    checkpoint: Option<Seq<char>>,
) -> Seq<char> {
    thread_id + ":"@ + node_name + ":"@ + match checkpoint {
        Some(id) => id,
        None => "initial"@,
    }
}

/// The identifier of a logical node execution.
pub open spec fn execution_key(
    thread_id: Seq<char>,
    node_name: Seq<char>,
    checkpoint: Option<Seq<char>>,
) -> Seq<char> {
    hyphenated(named_id(NAMESPACE_OID, execution_seed(thread_id, node_name, checkpoint)))
}

impl NodeContext {
    /// Whether the execution identifier is the one of this thread, node and
    /// checkpoint.
    pub open spec fn keyed(self) -> bool {
        self.execution_id@ == execution_key(
            self.thread_id@,
            self.node_name@,
            text_option(self.last_checkpoint_id),
        )
    }

    /// Create a context for an attempt with a given identifier.
    pub fn with_attempt_id(
        thread_id: String,
        node_name: String,
        attempt: u8,
        attempt_id: String,
        last_checkpoint_id: Option<String>,
        budget_remaining_eur: Option<Eur>,
        cancellation: Option<CancellationToken>,
        resumed_input: Option<JsonValue>,
    ) -> (context: Self)
        ensures
            context.keyed(),
            context.thread_id == thread_id,
            context.node_name == node_name,
            context.attempt == attempt,
            context.attempt_id == attempt_id,
            context.last_checkpoint_id == last_checkpoint_id,
            context.budget_remaining_eur == budget_remaining_eur,
            context.cancellation == cancellation,
            context.resumed_input == resumed_input,
    {
        let mut seed = thread_id.clone();
        seed.append(":");
        seed.append(node_name.as_str());
        seed.append(":");
        match &last_checkpoint_id {
            Some(id) => {
                seed.append(id.as_str());
            },
            None => {
                seed.append("initial");
            },
        }
        let execution_id = id_text(derive_id(NAMESPACE_OID, seed.as_str()));
        NodeContext {
            thread_id,
            node_name,
            attempt,
            execution_id,
            attempt_id,
            last_checkpoint_id,
            budget_remaining_eur,
            cancellation,
            resumed_input,
        }
    }

    /// Create a new context, with a fresh identifier for the attempt.
    pub fn new(
        thread_id: String,
        node_name: String,
        attempt: u8,
        last_checkpoint_id: Option<String>,
        budget_remaining_eur: Option<Eur>,
        cancellation: Option<CancellationToken>,
        resumed_input: Option<JsonValue>,
    ) -> (context: Self)
        ensures
            context.keyed(),
            context.thread_id == thread_id,
            context.node_name == node_name,
            context.attempt == attempt,
            exists|id: u128| is_random_id(id) && context.attempt_id@ == #[trigger] hyphenated(id),
            context.last_checkpoint_id == last_checkpoint_id,
            context.budget_remaining_eur == budget_remaining_eur,
            context.cancellation == cancellation,
            context.resumed_input == resumed_input,
    {
        let attempt_id = fresh_id_text();
        NodeContext::with_attempt_id(
            thread_id,
            node_name,
            attempt,
            attempt_id,
            last_checkpoint_id,
            budget_remaining_eur,
            cancellation,
            resumed_input,
        )
    }
}

/// Two contexts of one thread, node and checkpoint share the execution
/// identifier, whatever their attempts.
pub proof fn law_execution_id_survives_retries(a: NodeContext, b: NodeContext)
    requires
        a.keyed(),
        b.keyed(),
        a.thread_id@ == b.thread_id@,
        a.node_name@ == b.node_name@,
        text_option(a.last_checkpoint_id) == text_option(b.last_checkpoint_id),
    ensures
        a.execution_id@ == b.execution_id@,
{
}

/// Executions of one node after different checkpoints are derived from
/// different names.
pub proof fn law_execution_seed_follows_checkpoint(
    thread_id: Seq<char>,
    node_name: Seq<char>,
    a: Seq<char>,
    b: Seq<char>,
)
    requires
        a != b,
    ensures
        execution_seed(thread_id, node_name, Some(a)) != execution_seed(
            thread_id,
            node_name,
            Some(b),
        ),
{
    let lead = thread_id + ":"@ + node_name + ":"@;
    let x = lead + a;
    let y = lead + b;
    if x == y {
        assert(x.skip(lead.len() as int) =~= a);
        assert(y.skip(lead.len() as int) =~= b);
    }
}

/// What an execution identifier is derived from: the thread, the node and the
/// checkpoint, separated by colons, with a word of its own for no checkpoint.
pub proof fn law_execution_ids_are_derived(
    thread_id: String,
    node_name: String,
    attempt: u8,
    attempt_id: String,
    checkpoint: Option<String>,
    budget: Option<Eur>,
    cancellation: Option<CancellationToken>,
    input: Option<JsonValue>,
    context: NodeContext,
)
    requires
        call_ensures(
            NodeContext::with_attempt_id,
            (
                thread_id,
                node_name,
                attempt,
                attempt_id,
                checkpoint,
                budget,
                cancellation,
                input,
            ),
            context,
        ),
    ensures
        checkpoint matches Some(id) ==> context.execution_id@ == hyphenated(
            named_id(
                0x6ba7_b812_9dad_11d1_80b4_00c0_4fd4_30c8,
                thread_id@ + ":"@ + node_name@ + ":"@ + id@,
            ),
        ),
        checkpoint is None ==> context.execution_id@ == hyphenated(
            named_id(
                0x6ba7_b812_9dad_11d1_80b4_00c0_4fd4_30c8,
                thread_id@ + ":"@ + node_name@ + ":"@ + "initial"@,
            ),
        ),
        context.thread_id == thread_id,
        context.node_name == node_name,
        context.attempt == attempt,
        context.attempt_id == attempt_id,
        context.last_checkpoint_id == checkpoint,
        context.resumed_input == input,
{
}

} // verus!
