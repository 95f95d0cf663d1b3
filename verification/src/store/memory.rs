//! In-memory checkpoints for testing and lightweight local execution.
use crate::checkpoint::{
    claim_refusal, claim_refused, decide_claim, held_by, latest_option, waits_for, ClaimResult,
    LatestCheckpoint, LatestCheckpointView, PendingRequest, PendingRequestView,
};
use crate::checkpoint_meta::{
    status_text, CheckpointMeta, CheckpointMetaView, CheckpointStatus, RetentionPolicy,
};
use crate::clock::{earlier, out_of_range_text, utc_now, Timestamp};
use crate::dag::{dag_option, DAGView, DAG};
use crate::error::{TakelnError, TakelnErrorView};
use crate::hitl::{copy_request, copy_text, request_option, YieldRequest, YieldRequestView};
use crate::identity::{fresh_id_text, hyphenated, is_random_id};
use crate::store::rows::{plan_pruning, span_refused, within_calendar, Pruning};
use crate::text::{same_text, text_option};
use vstd::hash_map::StringHashMap;
use vstd::prelude::*;
use vstd::string::*;

verus! {

/// One checkpoint of a thread.
#[derive(Debug)]
pub struct MemoryCheckpoint<S> {
    pub checkpoint_id: String,
    pub state: S,
    pub next_node: String,
    pub dag: Option<DAG>,
    pub status: CheckpointStatus,
    pub created_at: Timestamp,
    pub yield_request: Option<YieldRequest>,
    pub claimed_interrupt: Option<String>,
    pub resolved_interrupt: Option<String>,
}

/// The contents of a [`MemoryCheckpoint`].
pub struct StoredView<S> {
    pub checkpoint_id: Seq<char>,
    pub state: S,
    pub next_node: Seq<char>,
    pub dag: Option<DAGView>,
    pub status: CheckpointStatus,
    pub created_at: Timestamp,
    pub yield_request: Option<YieldRequestView>,
    pub claimed_interrupt: Option<Seq<char>>,
    pub resolved_interrupt: Option<Seq<char>>,
}

impl<S> View for MemoryCheckpoint<S> {
    type V = StoredView<S>;

    open spec fn view(&self) -> StoredView<S> {
        StoredView {
            checkpoint_id: self.checkpoint_id@,
            state: self.state,
            next_node: self.next_node@,
            dag: dag_option(self.dag),
            status: self.status,
            created_at: self.created_at,
            yield_request: request_option(self.yield_request),
            claimed_interrupt: text_option(self.claimed_interrupt),
            resolved_interrupt: text_option(self.resolved_interrupt),
        }
    }
}

/// The metadata of a stored checkpoint.
pub open spec fn stored_meta<S>(stored: StoredView<S>, thread_id: Seq<char>) -> CheckpointMetaView {
    CheckpointMetaView {
        checkpoint_id: stored.checkpoint_id,
        thread_id,
        next_node: stored.next_node,
        graph_version: None,
        state_schema_version: None,
        status: stored.status,
        created_at: stored.created_at,
        yield_request: stored.yield_request,
        claimed_interrupt: stored.claimed_interrupt,
        resolved_interrupt: stored.resolved_interrupt,
    }
}

/// Whether loaded parts are those of a stored checkpoint.
pub open spec fn reads_back<S>(
    parts: (&S, CheckpointMeta, Option<&DAG>),
    stored: StoredView<S>,
    thread_id: Seq<char>,
) -> bool {
    &&& *parts.0 == stored.state
    &&& parts.1@ == stored_meta(stored, thread_id)
    &&& match parts.2 {
        Some(dag) => stored.dag == Some(dag@),
        None => stored.dag is None,
    }
}

/// Whether checkpoint `i` is the first of the log that has the identifier.
pub open spec fn first_with_id<S>(log: Seq<StoredView<S>>, id: Seq<char>, i: int) -> bool {
    &&& 0 <= i < log.len()
    &&& log[i].checkpoint_id == id
    &&& forall|j: int| 0 <= j < i ==> (#[trigger] log[j]).checkpoint_id != id
}

/// Whether a checkpoint of the log has the identifier.
pub open spec fn has_version<S>(log: Seq<StoredView<S>>, id: Seq<char>) -> bool {
    exists|i: int| 0 <= i < log.len() && (#[trigger] log[i]).checkpoint_id == id
}

/// What a claim reads of a stored checkpoint.
pub open spec fn claim_view<S>(stored: StoredView<S>) -> LatestCheckpointView {
    LatestCheckpointView {
        status: stored.status,
        shown_status: status_text(stored.status),
        request: match stored.yield_request {
            Some(request) => PendingRequestView::Interrupt(request.interrupt_id),
            None => PendingRequestView::Absent,
        },
        claimed_interrupt: stored.claimed_interrupt,
    }
}

/// Whether some checkpoint of the log resolved the interrupt.
pub open spec fn resolved_in<S>(log: Seq<StoredView<S>>, interrupt_id: Seq<char>) -> bool {
    exists|i: int| 0 <= i < log.len() && (#[trigger] log[i]).resolved_interrupt == Some(interrupt_id)
}

/// What a claim reads of the last checkpoint of a log.
pub open spec fn latest_of<S>(log: Seq<StoredView<S>>) -> Option<LatestCheckpointView> {
    if log.len() == 0 {
        None
    } else {
        Some(claim_view(log.last()))
    }
}

/// The log after its last checkpoint was claimed for the interrupt.
pub open spec fn claimed_log<S>(
    log: Seq<StoredView<S>>,
    interrupt_id: Seq<char>,
) -> Seq<StoredView<S>> {
    log.update(
        log.len() - 1,
        StoredView {
            status: CheckpointStatus::Running,
            claimed_interrupt: Some(interrupt_id),
            ..log.last()
        },
    )
}

/// The contents of a sequence of checkpoints.
pub open spec fn log_view<S>(log: Seq<MemoryCheckpoint<S>>) -> Seq<StoredView<S>> {
    log.map_values(|c: MemoryCheckpoint<S>| c@)
}

impl<S> MemoryCheckpoint<S> {
    /// The metadata of this checkpoint of a thread.
    pub fn to_meta(&self, thread_id: &str) -> (meta: CheckpointMeta)
        ensures
            meta@ == stored_meta(self@, thread_id@),
    {
        CheckpointMeta {
            checkpoint_id: self.checkpoint_id.clone(),
            thread_id: thread_id.to_owned(),
            next_node: self.next_node.clone(),
            graph_version: None,
            state_schema_version: None,
            status: self.status,
            created_at: self.created_at,
            yield_request: copy_request(&self.yield_request),
            claimed_interrupt: copy_text(&self.claimed_interrupt),
            resolved_interrupt: copy_text(&self.resolved_interrupt),
        }
    }

    fn claim_facts(&self) -> (latest: LatestCheckpoint)
        ensures
            latest@ == claim_view(self@),
    {
        LatestCheckpoint {
            status: self.status,
            shown_status: self.status.name().to_owned(),
            request: match &self.yield_request {
                Some(request) => PendingRequest::Interrupt(request.interrupt_id.clone()),
                None => PendingRequest::Absent,
            },
            claimed_interrupt: copy_text(&self.claimed_interrupt),
        }
    }
}

/// Checkpoints by thread, oldest first.
///
/// They are lost when the process exits; use a database store for checkpoints
/// that survive restarts.
pub struct InMemoryCheckpointer<S> {
    places: StringHashMap<usize>,
    logs: Vec<Vec<MemoryCheckpoint<S>>>,
}

impl<S> Default for InMemoryCheckpointer<S> {
    fn default() -> (store: Self)
        ensures
            store.wf(),
            forall|thread_id: Seq<char>| (#[trigger] store.log(thread_id)).len() == 0,
            forall|thread_id: Seq<char>| !#[trigger] store.knows(thread_id),
    {
        InMemoryCheckpointer::new()
    }
}

impl<S> InMemoryCheckpointer<S> {
    /// Whether every thread has a log of its own.
    pub closed spec fn wf(self) -> bool {
        &&& forall|name: Seq<char>| #[trigger]
            self.places@.contains_key(name) ==> self.places@[name] < self.logs@.len()
        &&& forall|a: Seq<char>, b: Seq<char>| #[trigger]
            self.places@.contains_key(a) && #[trigger] self.places@.contains_key(b)
                && self.places@[a] == self.places@[b] ==> a == b
    }

    /// Whether a checkpoint was ever saved under the thread.
    pub closed spec fn knows(self, thread_id: Seq<char>) -> bool {
        self.places@.contains_key(thread_id)
    }

    /// The checkpoints of a thread, oldest first.
    pub closed spec fn log(self, thread_id: Seq<char>) -> Seq<StoredView<S>> {
        if self.places@.contains_key(thread_id) {
            log_view(self.logs@[self.places@[thread_id] as int]@)
        } else {
            Seq::empty()
        }
    }

    /// Whether `self` differs from `before` at most in the log of one thread.
    pub open spec fn same_elsewhere(self, before: Self, thread_id: Seq<char>) -> bool {
        forall|other: Seq<char>|
            other != thread_id ==> (#[trigger] self.log(other)) == before.log(other) && self.knows(
                other,
            ) == before.knows(other)
    }

    /// Creates a new empty in-memory checkpointer.
    pub fn new() -> (store: Self)
        ensures
            store.wf(),
            forall|thread_id: Seq<char>| (#[trigger] store.log(thread_id)).len() == 0,
            forall|thread_id: Seq<char>| !#[trigger] store.knows(thread_id),
    {
        InMemoryCheckpointer { places: StringHashMap::new(), logs: Vec::new() }
    }

    /// The place of a thread's log, which a new thread is given.
    fn place(&mut self, thread_id: &str) -> (at: usize)
        requires
            old(self).wf(),
        ensures
            final(self).wf(),
            final(self).places@.contains_key(thread_id@),
            final(self).places@[thread_id@] == at,
            at < final(self).logs@.len(),
            final(self).log(thread_id@) == old(self).log(thread_id@),
            final(self).same_elsewhere(*old(self), thread_id@),
    {
        match self.places.get(thread_id) {
            Some(at) => {
                return *at;
            },
            None => {},
        }
        let at: usize = self.logs.len();
        self.places.insert(thread_id.to_owned(), at);
        self.logs.push(Vec::new());
        assert(log_view(self.logs@[at as int]@) =~= Seq::empty());
        at
    }

    /// Appends a checkpoint with a given identifier and time of creation.
    pub fn append(&mut self, thread_id: &str, checkpoint: MemoryCheckpoint<S>)
        requires
            old(self).wf(),
        ensures
            final(self).wf(),
            final(self).knows(thread_id@),
            final(self).log(thread_id@) == old(self).log(thread_id@).push(checkpoint@),
            final(self).same_elsewhere(*old(self), thread_id@),
    {
        let at: usize = self.place(thread_id);
        let ghost placed = *self;
        self.logs[at].push(checkpoint);
        proof {
            assert(self.log(thread_id@) =~= placed.log(thread_id@).push(checkpoint@));
            assert forall|other: Seq<char>| other != thread_id@ implies (
            #[trigger] self.log(other)) == old(self).log(other) && self.knows(other) == old(self).knows(other) by {
                assert(placed.log(other) == old(self).log(other));
            }
            assert(self.same_elsewhere(*old(self), thread_id@));
        }
    }

    /// Saves a checkpoint of a thread and returns its new identifier.
    ///
    /// `next_node` denotes the node where execution will resume, `status` what
    /// the graph was doing when the checkpoint was taken.
    pub fn save_state(
        &mut self,
        thread_id: &str,
        state: S,
        next_node: String,
        dag: Option<&DAG>,
        status: CheckpointStatus,
        yield_request: Option<YieldRequest>,
        claimed_interrupt: Option<String>,
        resolved_interrupt: Option<String>,
    ) -> (checkpoint_id: String)
        requires
            old(self).wf(),
        ensures
            final(self).wf(),
            final(self).knows(thread_id@),
            exists|id: u128| is_random_id(id) && checkpoint_id@ == #[trigger] hyphenated(id),
            final(self).log(thread_id@).len() == old(self).log(thread_id@).len() + 1,
            final(self).log(thread_id@).drop_last() == old(self).log(thread_id@),
            final(self).log(thread_id@).last() == (StoredView {
                checkpoint_id: checkpoint_id@,
                state,
                next_node: next_node@,
                dag: match dag {
                    Some(d) => Some(d@),
                    None => None,
                },
                status,
                created_at: final(self).log(thread_id@).last().created_at,
                yield_request: request_option(yield_request),
                claimed_interrupt: text_option(claimed_interrupt),
                resolved_interrupt: text_option(resolved_interrupt),
            }),
            final(self).log(thread_id@).last().created_at.ordinary(),
            final(self).same_elsewhere(*old(self), thread_id@),
    {
        let checkpoint_id = fresh_id_text();
        let created_at = utc_now();
        let checkpoint = MemoryCheckpoint {
            checkpoint_id: checkpoint_id.clone(),
            state,
            next_node,
            dag: match dag {
                Some(d) => Some(d.clone()),
                None => None,
            },
            status,
            created_at,
            yield_request,
            claimed_interrupt,
            resolved_interrupt,
        };
        self.append(thread_id, checkpoint);
        assert(self.log(thread_id@).drop_last() =~= old(self).log(thread_id@));
        checkpoint_id
    }

    /// The checkpoints of a thread.
    fn thread_log(&self, thread_id: &str) -> (found: Option<&Vec<MemoryCheckpoint<S>>>)
        requires
            self.wf(),
        ensures
            found is Some <==> self.knows(thread_id@),
            found matches Some(log) ==> log_view(log@) == self.log(thread_id@),
    {
        match self.places.get(thread_id) {
            Some(at) => Some(&self.logs[*at]),
            None => None,
        }
    }

    /// Whether a checkpoint was ever saved under the thread.
    pub fn knows_thread(&self, thread_id: &str) -> (known: bool)
        ensures
            known == self.knows(thread_id@),
    {
        self.places.contains_key(thread_id)
    }

    /// Retrieves the most recent checkpoint for a thread: the state, the
    /// metadata, and the DAG snapshot if there is one.
    pub fn load_state(&self, thread_id: &str) -> (loaded: Option<(&S, CheckpointMeta, Option<&DAG>)>)
        requires
            self.wf(),
        ensures
            loaded is Some <==> self.log(thread_id@).len() > 0,
            loaded matches Some(parts) ==> reads_back(
                parts,
                self.log(thread_id@).last(),
                thread_id@,
            ),
    {
        match self.thread_log(thread_id) {
            Some(log) => {
                if log.len() == 0 {
                    return None;
                }
                let last = &log[log.len() - 1];
                assert(self.log(thread_id@).last() == last@);
                Some((&last.state, last.to_meta(thread_id), last.dag.as_ref()))
            },
            None => None,
        }
    }

    /// Retrieves a checkpoint of a thread by its identifier.
    pub fn load_version(&self, thread_id: &str, checkpoint_id: &str) -> (loaded: Option<
        (&S, CheckpointMeta, Option<&DAG>),
    >)
        requires
            self.wf(),
        ensures
            match loaded {
                Some(parts) => exists|i: int| #[trigger]
                    first_with_id(self.log(thread_id@), checkpoint_id@, i) && reads_back(
                        parts,
                        self.log(thread_id@)[i],
                        thread_id@,
                    ),
                None => forall|i: int|
                    0 <= i < self.log(thread_id@).len() ==> (#[trigger] self.log(
                        thread_id@,
                    )[i]).checkpoint_id != checkpoint_id@,
            },
            loaded is Some <==> has_version(self.log(thread_id@), checkpoint_id@),
    {
        match self.thread_log(thread_id) {
            Some(log) => {
                let ghost views = self.log(thread_id@);
                let mut i: usize = 0;
                while i < log.len()
                    invariant
                        i <= log@.len(),
                        views == log_view(log@),
                        views == self.log(thread_id@),
                        forall|j: int| 0 <= j < i ==> (#[trigger] views[j]).checkpoint_id
                            != checkpoint_id@,
                    decreases log.len() - i,
                {
                    let checkpoint = &log[i];
                    assert(views[i as int] == checkpoint@);
                    if same_text(checkpoint.checkpoint_id.as_str(), checkpoint_id) {
                        assert(first_with_id(views, checkpoint_id@, i as int));
                        return Some(
                            (
                                &checkpoint.state,
                                checkpoint.to_meta(thread_id),
                                checkpoint.dag.as_ref(),
                            ),
                        );
                    }
                    i = i + 1;
                }
                None
            },
            None => None,
        }
    }

    /// Lists the metadata of all checkpoints of a thread, oldest first.
    pub fn list_checkpoints(&self, thread_id: &str) -> (metas: Vec<CheckpointMeta>)
        requires
            self.wf(),
        ensures
            metas@.len() == self.log(thread_id@).len(),
            forall|i: int|
                0 <= i < metas@.len() ==> (#[trigger] metas@[i])@ == stored_meta(
                    self.log(thread_id@)[i],
                    thread_id@,
                ),
    {
        let mut metas: Vec<CheckpointMeta> = Vec::new();
        match self.thread_log(thread_id) {
            Some(log) => {
                let ghost views = self.log(thread_id@);
                let mut i: usize = 0;
                while i < log.len()
                    invariant
                        i <= log@.len(),
                        metas@.len() == i,
                        views == log_view(log@),
                        forall|j: int|
                            0 <= j < i ==> (#[trigger] metas@[j])@ == stored_meta(
                                views[j],
                                thread_id@,
                            ),
                    decreases log.len() - i,
                {
                    metas.push(log[i].to_meta(thread_id));
                    i = i + 1;
                }
            },
            None => {},
        }
        metas
    }

    /// Deletes what a policy deletes at the given time and returns how many
    /// checkpoints that were.
    pub fn delete_checkpoints_at(
        &mut self,
        thread_id: &str,
        policy: RetentionPolicy,
        now: Timestamp,
    ) -> (deleted: Result<usize, TakelnError>)
        requires
            old(self).wf(),
            now.ordinary(),
            old(self).knows(thread_id@) ==> within_calendar(policy, now),
        ensures
            final(self).wf(),
            final(self).same_elsewhere(*old(self), thread_id@),
            final(self).knows(thread_id@) == old(self).knows(thread_id@),
            deleted is Err <==> old(self).knows(thread_id@) && span_refused(policy),
            deleted matches Err(error) ==> {
                &&& error@ == TakelnErrorView::CheckpointError(out_of_range_text())
                &&& final(self).log(thread_id@) == old(self).log(thread_id@)
            },
            deleted matches Ok(n) ==> {
                &&& final(self).log(thread_id@) == kept_log(old(self).log(thread_id@), policy, now)
                &&& n == old(self).log(thread_id@).len() - final(self).log(thread_id@).len()
            },
    {
        let at: usize = match self.places.get(thread_id) {
            Some(at) => *at,
            None => {
                proof {
                    reveal(Seq::filter);
                    assert(kept_log(self.log(thread_id@), policy, now) =~= Seq::empty());
                }
                return Ok(0);
            },
        };
        let plan = match plan_pruning(policy, now) {
            Ok(plan) => plan,
            Err(error) => {
                return Err(error);
            },
        };
        let ghost before = self.logs@[at as int]@;
        let length: usize = self.logs[at].len();
        match plan {
            Pruning::Nothing => Ok(0),
            Pruning::AllButNewest(n) => {
                if length > n {
                    let kept = self.logs[at].split_off(length - n);
                    self.logs.set(at, kept);
                    proof {
                        assert(self.log(thread_id@) =~= old(self).log(thread_id@).skip(
                            length - n,
                        ));
                    }
                    Ok(length - n)
                } else {
                    assert(self.log(thread_id@).skip(0) =~= self.log(thread_id@));
                    Ok(0)
                }
            },
            Pruning::CreatedBefore(cutoff) => {
                self.drop_before(at, cutoff);
                let kept: usize = self.logs[at].len();
                proof {
                    let keep = |c: StoredView<S>| c.created_at.not_before(cutoff);
                    lemma_filter_len(log_view(before), keep);
                }
                Ok(length - kept)
            },
        }
    }

    /// Deletes what a policy deletes now and returns how many checkpoints that
    /// were.
    pub fn delete_checkpoints(&mut self, thread_id: &str, policy: RetentionPolicy) -> (deleted:
        Result<usize, TakelnError>)
        requires
            old(self).wf(),
            old(self).knows(thread_id@) ==> forall|now: Timestamp|
                now.ordinary() && now.secs >= 0 ==> #[trigger] within_calendar(policy, now),
        ensures
            final(self).wf(),
            final(self).same_elsewhere(*old(self), thread_id@),
            final(self).knows(thread_id@) == old(self).knows(thread_id@),
            deleted is Err <==> old(self).knows(thread_id@) && span_refused(policy),
            deleted matches Err(error) ==> {
                &&& error@ == TakelnErrorView::CheckpointError(out_of_range_text())
                &&& final(self).log(thread_id@) == old(self).log(thread_id@)
            },
            deleted matches Ok(n) ==> {
                &&& exists|now: Timestamp|
                    now.ordinary() && now.secs >= 0 && final(self).log(thread_id@)
                        == #[trigger] kept_log(old(self).log(thread_id@), policy, now)
                &&& n == old(self).log(thread_id@).len() - final(self).log(thread_id@).len()
            },
    {
        let now = utc_now();
        assert(self.knows(thread_id@) ==> within_calendar(policy, now));
        self.delete_checkpoints_at(thread_id, policy, now)
    }

    /// Drops the checkpoints of one log that were created before `cutoff`.
    fn drop_before(&mut self, at: usize, cutoff: Timestamp)
        requires
            old(self).wf(),
            at < old(self).logs@.len(),
        ensures
            final(self).wf(),
            final(self).places@ == old(self).places@,
            final(self).logs@.len() == old(self).logs@.len(),
            forall|k: int|
                0 <= k < old(self).logs@.len() && k != at ==> final(self).logs@[k] == old(
                    self,
                ).logs@[k],
            log_view(final(self).logs@[at as int]@) == log_view(old(self).logs@[at as int]@).filter(
                |c: StoredView<S>| c.created_at.not_before(cutoff),
            ),
    {
        let ghost keep = |c: StoredView<S>| c.created_at.not_before(cutoff);
        let ghost all = log_view(self.logs@[at as int]@);
        let ghost mut seen: int = 0;
        let mut i: usize = 0;
        proof {
            reveal(Seq::filter);
            assert(all.take(0).filter(keep) =~= Seq::empty());
            assert(all.skip(0) =~= all);
            assert(log_view(self.logs@[at as int]@) =~= all.take(0).filter(keep) + all.skip(0));
        }
        while i < self.logs[at].len()
            invariant
                self.wf(),
                self.places@ == old(self).places@,
                self.logs@.len() == old(self).logs@.len(),
                at < self.logs@.len(),
                keep == (|c: StoredView<S>| c.created_at.not_before(cutoff)),
                forall|k: int|
                    0 <= k < old(self).logs@.len() && k != at ==> self.logs@[k] == old(
                        self,
                    ).logs@[k],
                0 <= seen <= all.len(),
                i == all.take(seen).filter(keep).len(),
                log_view(self.logs@[at as int]@) == all.take(seen).filter(keep) + all.skip(seen),
            decreases all.len() - seen,
        {
            let ghost current = log_view(self.logs@[at as int]@);
            proof {
                assert(current.len() == i + (all.len() - seen));
                assert(current[i as int] == all.skip(seen)[0]);
                assert(current[i as int] == all[seen]);
                assert(all.take(seen + 1).drop_last() =~= all.take(seen));
                reveal(Seq::filter);
            }
            if self.logs[at][i].created_at.at_or_after(&cutoff) {
                proof {
                    assert(all.take(seen + 1).filter(keep) == all.take(seen).filter(keep).push(
                        all[seen],
                    ));
                    assert(all.take(seen + 1).filter(keep) + all.skip(seen + 1) =~= current);
                    seen = seen + 1;
                }
                i = i + 1;
            } else {
                let _ = self.logs[at].remove(i);
                proof {
                    assert(all.take(seen + 1).filter(keep) == all.take(seen).filter(keep));
                    assert(log_view(self.logs@[at as int]@) =~= current.remove(i as int));
                    assert(all.take(seen + 1).filter(keep) + all.skip(seen + 1)
                        =~= current.remove(i as int));
                    seen = seen + 1;
                }
            }
        }
        proof {
            assert(all.skip(seen).len() == 0);
            assert(all.take(all.len() as int) =~= all);
            assert(log_view(self.logs@[at as int]@) =~= all.filter(keep));
        }
    }

    /// Claims an interrupt of a thread for a resume. The claim is taken up by
    /// marking the latest checkpoint as running under the interrupt.
    pub fn claim_interrupt(&mut self, thread_id: &str, interrupt_id: &str) -> (claim: Result<
        ClaimResult,
        TakelnError,
    >)
        requires
            old(self).wf(),
        ensures
            final(self).wf(),
            final(self).same_elsewhere(*old(self), thread_id@),
            claim == Ok::<ClaimResult, TakelnError>(ClaimResult::AlreadyCompleted) <==> resolved_in(
                old(self).log(thread_id@),
                interrupt_id@,
            ),
            claim == Ok::<ClaimResult, TakelnError>(ClaimResult::InProgress) <==> {
                &&& !resolved_in(old(self).log(thread_id@), interrupt_id@)
                &&& latest_of(old(self).log(thread_id@)) matches Some(l) && held_by(
                    l,
                    interrupt_id@,
                )
            },
            claim == Ok::<ClaimResult, TakelnError>(ClaimResult::Claimed) <==> {
                &&& !resolved_in(old(self).log(thread_id@), interrupt_id@)
                &&& latest_of(old(self).log(thread_id@)) matches Some(l) && waits_for(
                    l,
                    interrupt_id@,
                )
            },
            claim is Err <==> claim_refused(
                resolved_in(old(self).log(thread_id@), interrupt_id@),
                latest_of(old(self).log(thread_id@)),
                interrupt_id@,
            ),
            claim matches Err(error) ==> match latest_of(old(self).log(thread_id@)) {
                None => error@ == TakelnErrorView::NothingToResume(thread_id@),
                Some(l) => error@ == claim_refusal(thread_id@, interrupt_id@, l),
            },
            final(self).log(thread_id@) == (if claim == Ok::<ClaimResult, TakelnError>(
                ClaimResult::Claimed,
            ) {
                claimed_log(old(self).log(thread_id@), interrupt_id@)
            } else {
                old(self).log(thread_id@)
            }),
    {
        let at: usize = match self.places.get(thread_id) {
            Some(at) => *at,
            None => {
                return decide_claim(thread_id, interrupt_id, false, &None);
            },
        };
        let ghost log = self.log(thread_id@);
        let mut resolved = false;
        let mut i: usize = 0;
        while i < self.logs[at].len()
            invariant
                *self == *old(self),
                at < self.logs@.len(),
                log == log_view(self.logs@[at as int]@),
                i <= log.len(),
                resolved <==> exists|j: int|
                    0 <= j < i && (#[trigger] log[j]).resolved_interrupt == Some(interrupt_id@),
            decreases log.len() - i,
        {
            assert(log[i as int] == self.logs@[at as int]@[i as int]@);
            match &self.logs[at][i].resolved_interrupt {
                Some(id) => {
                    if same_text(id.as_str(), interrupt_id) {
                        assert(log[i as int].resolved_interrupt == Some(interrupt_id@));
                        resolved = true;
                    }
                },
                None => {},
            }
            i = i + 1;
        }
        let length: usize = self.logs[at].len();
        let latest = if length == 0 {
            None
        } else {
            Some(self.logs[at][length - 1].claim_facts())
        };
        assert(latest_option(latest) == latest_of(log));
        let decision = decide_claim(thread_id, interrupt_id, resolved, &latest);
        match &decision {
            Ok(ClaimResult::Claimed) => {
                self.logs[at][length - 1].status = CheckpointStatus::Running;
                self.logs[at][length - 1].claimed_interrupt = Some(interrupt_id.to_owned());
                assert(self.log(thread_id@) =~= claimed_log(log, interrupt_id@));
            },
            _ => {},
        }
        decision
    }
}

/// Filtering never makes a sequence longer.
proof fn lemma_filter_len<A>(items: Seq<A>, keep: spec_fn(A) -> bool)
    ensures
        items.filter(keep).len() <= items.len(),
    decreases items.len(),
{
    reveal(Seq::filter);
    if items.len() > 0 {
        lemma_filter_len(items.drop_last(), keep);
    }
}

/// The checkpoints of a log that a policy keeps at `now`.
pub open spec fn kept_log<S>(
    log: Seq<StoredView<S>>,
    policy: RetentionPolicy,
    now: Timestamp,
) -> Seq<StoredView<S>> {
    match policy {
        RetentionPolicy::KeepAll => log,
        RetentionPolicy::KeepLast(n) => if log.len() > n {
            log.skip(log.len() - n)
        } else {
            log
        },
        RetentionPolicy::OlderThan(span) => log.filter(
            |c: StoredView<S>| c.created_at.not_before(earlier(now, span)),
        ),
    }
}

} // verus!
