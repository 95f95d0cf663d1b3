//! Merging the results of parallel nodes.
use vstd::prelude::*;

verus! {

/// Trait for merging parallel execution results into a single state.
///
/// When multiple DAG nodes execute in the same wave, their output states
/// are merged one after the other in DAG node index order.
pub trait Merge: Sized {
    /// Whether merging `other` into `before` may give `after`. A type that does
    /// not say so admits every result.
    open spec fn merged(before: Self, other: Self, after: Self) -> bool {
        true
    }

    /// Merge `other` into `self`. Called in DAG node index order when parallel
    /// wave results are combined.
    fn merge(&mut self, other: Self)
        ensures
            Self::merged(*old(self), other, *final(self)),
    ;
}

/// Whether merging `others` into `before`, one after the other, may give
/// `after`.
pub open spec fn merged_all<S: Merge>(before: S, others: Seq<S>, after: S) -> bool
    decreases others.len(),
{
    if others.len() == 0 {
        after == before
    } else {
        exists|between: S|
            merged_all(before, others.drop_last(), between) && #[trigger] S::merged(
                between,
                others.last(),
                after,
            )
    }
}

/// One more merge makes one more of the others.
pub(crate) proof fn lemma_merged_one_more<S: Merge>(
    before: S,
    others: Seq<S>,
    between: S,
    other: S,
    after: S,
)
    requires
        merged_all(before, others, between),
        S::merged(between, other, after),
    ensures
        merged_all(before, others.push(other), after),
{
    let more = others.push(other);
    assert(more.drop_last() =~= others);
    assert(S::merged(between, more.last(), after));
}

} // verus!
