//! Execution history: a bounded record of node executions.
use crate::clock::Timestamp;
use crate::hitl::copy_text;
use crate::money::Eur;
use crate::text::text_option;
use std::collections::VecDeque;
use vstd::prelude::*;
use vstd::string::*;

verus! {

/// A record of a single node execution for replay and auditing.
#[derive(Debug)]
pub struct ExecutionRecord {
    /// Name of the executed node.
    pub node_name: String,
    /// When the node started executing.
    pub started_at: Timestamp,
    /// Execution duration in milliseconds.
    pub duration_ms: u64,
    /// Execution outcome.
    pub status: String,
    /// Cost in EUR (if available).
    pub cost_eur: Option<Eur>,
    /// Checkpoint ID saved after this execution (if any).
    pub checkpoint_id: Option<String>,
    /// Number of retry attempts.
    pub attempts: u8,
    /// Opaque actor identifier who performed the resume (only for resumes).
    pub actor: Option<String>,
    /// SHA-256 hash of the canonicalized resume input (only for resumes).
    pub response_hash: Option<String>,
}

/// The contents of an [`ExecutionRecord`].
pub struct ExecutionRecordView {
    pub node_name: Seq<char>,
    pub started_at: Timestamp,
    pub duration_ms: u64,
    pub status: Seq<char>,
    pub cost_eur: Option<Eur>,
    pub checkpoint_id: Option<Seq<char>>,
    pub attempts: u8,
    pub actor: Option<Seq<char>>,
    pub response_hash: Option<Seq<char>>,
}

impl View for ExecutionRecord {
    type V = ExecutionRecordView;

    open spec fn view(&self) -> ExecutionRecordView {
        ExecutionRecordView {
            node_name: self.node_name@,
            started_at: self.started_at,
            duration_ms: self.duration_ms,
            status: self.status@,
            cost_eur: self.cost_eur,
            checkpoint_id: text_option(self.checkpoint_id),
            attempts: self.attempts,
            actor: text_option(self.actor),
            response_hash: text_option(self.response_hash),
        }
    }
}

impl Clone for ExecutionRecord {
    fn clone(&self) -> (record: Self)
        ensures
            record == *self,
    {
        ExecutionRecord {
            node_name: self.node_name.clone(),
            started_at: self.started_at,
            duration_ms: self.duration_ms,
            status: self.status.clone(),
            cost_eur: self.cost_eur,
            checkpoint_id: copy_text(&self.checkpoint_id),
            attempts: self.attempts,
            actor: copy_text(&self.actor),
            response_hash: copy_text(&self.response_hash),
        }
    }
}

/// The newest `cap` items.
pub open spec fn newest<A>(items: Seq<A>, cap: nat) -> Seq<A> {
    if items.len() > cap {
        items.skip(items.len() - cap)
    } else {
        items
    }
}

/// The execution records retained in memory, oldest first.
pub struct ExecutionHistory {
    records: VecDeque<ExecutionRecord>,
}

impl View for ExecutionHistory {
    type V = Seq<ExecutionRecord>;

    /// The records, oldest first.
    closed spec fn view(&self) -> Seq<ExecutionRecord> {
        self.records@
    }
}

impl ExecutionHistory {
    /// An empty history.
    pub fn new() -> (history: Self)
        ensures
            history@ == Seq::<ExecutionRecord>::empty(),
    {
        ExecutionHistory { records: VecDeque::new() }
    }

    /// Adds a record and drops the oldest ones beyond `cap`.
    pub fn record(&mut self, record: ExecutionRecord, cap: usize)
        ensures
            final(self)@ == newest(old(self)@.push(record), cap as nat),
            final(self)@.len() <= cap,
    {
        let ghost all = self.records@;
        let ghost mut dropped: int = 0;
        assert(all.skip(0) =~= all);
        while self.records.len() > 0 && self.records.len() >= cap
            invariant
                0 <= dropped <= all.len(),
                self.records@ == all.skip(dropped),
                dropped > 0 ==> self.records@.len() + 1 >= cap,
                dropped > 0 && cap > 0 ==> self.records@.len() + 1 == all.len() - dropped + 1,
            decreases self.records@.len(),
        {
            let _ = self.records.pop_front();
            proof {
                assert(all.skip(dropped).drop_first() =~= all.skip(dropped + 1));
                dropped = dropped + 1;
            }
        }
        if cap > 0 {
            self.records.push_back(record);
            assert(self.records@ =~= newest(all.push(record), cap as nat));
        } else {
            assert(self.records@ =~= newest(all.push(record), 0));
        }
    }

    /// A copy of the records, oldest first.
    pub fn execution_history(&self) -> (records: Vec<ExecutionRecord>)
        ensures
            records@ == self@,
    {
        let mut records: Vec<ExecutionRecord> = Vec::new();
        let mut i: usize = 0;
        while i < self.records.len()
            invariant
                i <= self.records@.len(),
                records@ == self.records@.take(i as int),
            decreases self.records.len() - i,
        {
            records.push(self.records[i].clone());
            assert(records@ =~= self.records@.take(i + 1));
            i = i + 1;
        }
        assert(self.records@.take(self.records@.len() as int) =~= self.records@);
        records
    }
}

/// The record added last is in the history, unless nothing is retained, and
/// what is retained is a suffix of what was recorded.
pub proof fn law_newest_keeps_the_last<A>(items: Seq<A>, item: A, cap: nat)
    ensures
        newest(items.push(item), cap).len() <= cap,
        cap > 0 ==> newest(items.push(item), cap).last() == item,
        newest(newest(items, cap).push(item), cap) == newest(items.push(item), cap),
{
    assert(newest(newest(items, cap).push(item), cap) =~= newest(items.push(item), cap));
}

/// What is retained of a list: its last items in their order, as many as fit and
/// all where they fit.
pub proof fn law_newest_is_the_tail<A>(items: Seq<A>, cap: nat)
    ensures
        newest(items, cap).len() == if items.len() < cap {
            items.len()
        } else {
            cap
        },
        forall|i: int|
            0 <= i < newest(items, cap).len() ==> #[trigger] newest(items, cap)[i] == items[items.len()
                - newest(items, cap).len() + i],
{
}

} // verus!
