//! What holds of the checkpoints of a thread over several operations.
use crate::checkpoint::{
    claim_refusal, claim_refused, decide_claim, held_by, latest_option, settle_claim, waits_for, ClaimResult,
    LatestCheckpoint, LatestCheckpointView,
};
use crate::checkpoint_meta::{status_text, CheckpointMeta, CheckpointStatus, RetentionPolicy};
use crate::clock::{earlier, TimeSpan, Timestamp};
use crate::dag::DAG;
use crate::error::{TakelnError, TakelnErrorView};
use crate::hitl::YieldRequest;
use crate::store::memory::{
    claimed_log, first_with_id, has_version, kept_log, latest_of, reads_back, resolved_in, stored_meta,
    InMemoryCheckpointer, StoredView,
};
use crate::store::rows::{plan_pruning, read_meta, within_calendar, CheckpointRow, Pruning};
use vstd::prelude::*;

verus! {

/// The checkpoint saved last is the one that is loaded, whatever was saved
/// before; an identifier that is new to the log finds the same checkpoint.
pub proof fn law_load_finds_last_save<S>(log: Seq<StoredView<S>>, saved: StoredView<S>)
    ensures
        log.push(saved).len() > 0,
        log.push(saved).last() == saved,
        (forall|i: int|
            0 <= i < log.len() ==> (#[trigger] log[i]).checkpoint_id != saved.checkpoint_id)
            ==> first_with_id(log.push(saved), saved.checkpoint_id, log.len() as int),
        forall|id: Seq<char>, i: int|
            first_with_id(log, id, i) ==> #[trigger] first_with_id(log.push(saved), id, i),
{
    let longer = log.push(saved);
    assert forall|id: Seq<char>, i: int| first_with_id(log, id, i) implies #[trigger] first_with_id(
        longer,
        id,
        i,
    ) by {
        assert(longer[i] == log[i]);
        assert forall|j: int| 0 <= j < i implies (#[trigger] longer[j]).checkpoint_id != id by {
            assert(longer[j] == log[j]);
        }
    }
    if forall|i: int|
        0 <= i < log.len() ==> (#[trigger] log[i]).checkpoint_id != saved.checkpoint_id {
        assert forall|j: int| 0 <= j < log.len() implies (#[trigger] longer[j]).checkpoint_id
            != saved.checkpoint_id by {
            assert(longer[j] == log[j]);
        }
    }
}

/// A claim has one winner: once an interrupt is claimed, a second claim finds
/// it in progress and can no longer take it, and a claim of another interrupt
/// is told who holds the thread.
pub proof fn law_claim_has_one_winner<S>(
    log: Seq<StoredView<S>>,
    interrupt_id: Seq<char>,
    other: Seq<char>,
    thread_id: Seq<char>,
)
    requires
        latest_of(log) matches Some(l) && waits_for(l, interrupt_id),
        !resolved_in(log, interrupt_id),
        other != interrupt_id,
    ensures
        !resolved_in(claimed_log(log, interrupt_id), interrupt_id),
        latest_of(claimed_log(log, interrupt_id)) matches Some(l) && held_by(l, interrupt_id)
            && !waits_for(l, interrupt_id) && !held_by(l, other) && !waits_for(l, other)
            && claim_refusal(thread_id, other, l) == TakelnErrorView::ExecutionError(
            "Resume claim failed: thread '"@ + thread_id
                + "' is already running with claimed_interrupt '"@ + interrupt_id + "'"@,
        ),
{
    let after = claimed_log(log, interrupt_id);
    assert(after.last() == after[log.len() - 1]);
    if resolved_in(after, interrupt_id) {
        let i = choose|i: int|
            0 <= i < after.len() && (#[trigger] after[i]).resolved_interrupt == Some(interrupt_id);
        assert(log[i].resolved_interrupt == Some(interrupt_id));
    }
}

/// What a claim that is taken up by one conditional update makes of the latest
/// row, and how many rows it changes: one that is yielded is marked as running
/// under the interrupt, any other stays as it is.
pub open spec fn claimed_row(row: LatestCheckpointView, interrupt_id: Seq<char>) -> (
    LatestCheckpointView,
    u64,
) {
    if row.status == CheckpointStatus::Yielded {
        (
            LatestCheckpointView {
                status: CheckpointStatus::Running,
                shown_status: status_text(CheckpointStatus::Running),
                claimed_interrupt: Some(interrupt_id),
                ..row
            },
            1,
        )
    } else {
        (row, 0)
    }
}

/// A claim on a row has one winner: of several that found the interrupt waiting,
/// the first to update the row is settled, and every later one, of this
/// interrupt or another, changes nothing and fails; who reads the row afterwards
/// is told that the interrupt is in progress, or who holds the thread.
pub proof fn law_row_claim_has_one_winner(
    thread_id: &str,
    interrupt_id: &str,
    other: &str,
    row: LatestCheckpointView,
    first: Result<ClaimResult, TakelnError>,
    later: Result<ClaimResult, TakelnError>,
    read: &Option<LatestCheckpoint>,
    again: Result<ClaimResult, TakelnError>,
    another: Result<ClaimResult, TakelnError>,
)
    requires
        waits_for(row, interrupt_id@),
        call_ensures(settle_claim, (thread_id, claimed_row(row, interrupt_id@).1), first),
        call_ensures(
            settle_claim,
            (thread_id, claimed_row(claimed_row(row, interrupt_id@).0, other@).1),
            later,
        ),
        latest_option(*read) == Some(claimed_row(row, interrupt_id@).0),
        call_ensures(decide_claim, (thread_id, interrupt_id, false, read), again),
        call_ensures(decide_claim, (thread_id, other, false, read), another),
    ensures
        first == Ok::<ClaimResult, TakelnError>(ClaimResult::Claimed),
        claimed_row(claimed_row(row, interrupt_id@).0, other@).0 == claimed_row(
            row,
            interrupt_id@,
        ).0,
        later is Err,
        again == Ok::<ClaimResult, TakelnError>(ClaimResult::InProgress),
        other@ != interrupt_id@ ==> another is Err && another->Err_0@
            == TakelnErrorView::ExecutionError(
            "Resume claim failed: thread '"@ + thread_id@
                + "' is already running with claimed_interrupt '"@ + interrupt_id@ + "'"@,
        ),
{
}

/// A claim changes the status and the claim mark of the latest checkpoint and
/// nothing else.
pub proof fn law_claim_keeps_the_checkpoint<S>(log: Seq<StoredView<S>>, interrupt_id: Seq<char>)
    requires
        log.len() > 0,
    ensures
        claimed_log(log, interrupt_id).len() == log.len(),
        claimed_log(log, interrupt_id).drop_last() == log.drop_last(),
        claimed_log(log, interrupt_id).last() == (StoredView {
            status: CheckpointStatus::Running,
            claimed_interrupt: Some(interrupt_id),
            ..log.last()
        }),
{
    assert(claimed_log(log, interrupt_id).drop_last() =~= log.drop_last());
}

/// Once a checkpoint that resolves an interrupt is saved, the interrupt stays
/// resolved through every later save and claim.
pub proof fn law_resolved_stays_resolved<S>(
    log: Seq<StoredView<S>>,
    saved: StoredView<S>,
    interrupt_id: Seq<char>,
    claimed: Seq<char>,
)
    ensures
        saved.resolved_interrupt == Some(interrupt_id) ==> resolved_in(
            log.push(saved),
            interrupt_id,
        ),
        resolved_in(log, interrupt_id) ==> resolved_in(log.push(saved), interrupt_id),
        resolved_in(log, interrupt_id) ==> resolved_in(claimed_log(log, claimed), interrupt_id),
{
    let longer = log.push(saved);
    assert(longer[log.len() as int] == saved);
    if resolved_in(log, interrupt_id) {
        let i = choose|i: int|
            0 <= i < log.len() && (#[trigger] log[i]).resolved_interrupt == Some(interrupt_id);
        assert(longer[i].resolved_interrupt == Some(interrupt_id));
        assert(claimed_log(log, claimed)[i].resolved_interrupt == Some(interrupt_id));
    }
}

/// Saving the yielded checkpoint again, with no claim on it, makes the
/// interrupt claimable again.
pub proof fn law_rollback_reopens_the_interrupt<S>(
    log: Seq<StoredView<S>>,
    interrupt_id: Seq<char>,
    rollback: StoredView<S>,
)
    requires
        latest_of(log) matches Some(l) && waits_for(l, interrupt_id),
        !resolved_in(log, interrupt_id),
        rollback.status == CheckpointStatus::Yielded,
        rollback.yield_request == log.last().yield_request,
        rollback.claimed_interrupt is None,
        rollback.resolved_interrupt is None,
    ensures
        !resolved_in(claimed_log(log, interrupt_id).push(rollback), interrupt_id),
        latest_of(claimed_log(log, interrupt_id).push(rollback)) matches Some(l) && waits_for(
            l,
            interrupt_id,
        ),
{
    let after = claimed_log(log, interrupt_id).push(rollback);
    if resolved_in(after, interrupt_id) {
        let i = choose|i: int|
            0 <= i < after.len() && (#[trigger] after[i]).resolved_interrupt == Some(interrupt_id);
        if i < log.len() {
            assert(log[i].resolved_interrupt == Some(interrupt_id));
        }
    }
}

/// Keeping the last `n` checkpoints leaves the newest ones, at most `n` and all
/// where there are no more; keeping all leaves all.
pub proof fn law_keep_last_keeps_the_newest<S>(log: Seq<StoredView<S>>, n: usize, now: Timestamp)
    ensures
        kept_log(log, RetentionPolicy::KeepAll, now) == log,
        kept_log(log, RetentionPolicy::KeepLast(n), now).len() == if log.len() < n {
            log.len()
        } else {
            n as nat
        },
        forall|i: int|
            0 <= i < kept_log(log, RetentionPolicy::KeepLast(n), now).len() ==> #[trigger] kept_log(
                log,
                RetentionPolicy::KeepLast(n),
                now,
            )[i] == log[log.len() - kept_log(log, RetentionPolicy::KeepLast(n), now).len() + i],
        n > 0 && log.len() > 0 ==> kept_log(log, RetentionPolicy::KeepLast(n), now).last()
            == log.last(),
{
}

/// Deleting by age keeps exactly the checkpoints that are not older than the
/// span, and deleting again at the same time deletes nothing more.
pub proof fn law_older_than_keeps_the_recent<S>(
    log: Seq<StoredView<S>>,
    span: TimeSpan,
    now: Timestamp,
    c: StoredView<S>,
)
    ensures
        kept_log(log, RetentionPolicy::OlderThan(span), now).contains(c) <==> log.contains(c)
            && c.created_at.not_before(earlier(now, span)),
        kept_log(
            kept_log(log, RetentionPolicy::OlderThan(span), now),
            RetentionPolicy::OlderThan(span),
            now,
        ) == kept_log(log, RetentionPolicy::OlderThan(span), now),
{
    let keep = |c: StoredView<S>| c.created_at.not_before(earlier(now, span));
    lemma_filter_contains(log, keep, c);
    lemma_filter_twice(log, keep);
}

/// Whether the checkpoints of a log come in the order of their creation.
pub open spec fn in_order<S>(log: Seq<StoredView<S>>) -> bool {
    forall|i: int, j: int|
        0 <= i < j < log.len() ==> (#[trigger] log[j]).created_at.not_before(
            (#[trigger] log[i]).created_at,
        )
}

/// As long as the clock does not go back, the checkpoints of a thread are
/// listed in the order of their creation: saving, claiming and deleting keep
/// it.
pub proof fn law_log_stays_in_order<S>(
    log: Seq<StoredView<S>>,
    saved: StoredView<S>,
    interrupt_id: Seq<char>,
    policy: RetentionPolicy,
    now: Timestamp,
)
    requires
        in_order(log),
        log.len() > 0 ==> saved.created_at.not_before(log.last().created_at),
    ensures
        in_order(log.push(saved)),
        log.len() > 0 ==> in_order(claimed_log(log, interrupt_id)),
        in_order(kept_log(log, policy, now)),
{
    let longer = log.push(saved);
    assert forall|i: int, j: int| 0 <= i < j < longer.len() implies (
    #[trigger] longer[j]).created_at.not_before((#[trigger] longer[i]).created_at) by {
        assert(longer[i] == log[i]);
        if j < log.len() {
            assert(longer[j] == log[j]);
        } else if i < log.len() - 1 {
            assert(log[log.len() - 1].created_at.not_before(log[i].created_at));
        }
    }
    if log.len() > 0 {
        let claimed = claimed_log(log, interrupt_id);
        assert forall|i: int, j: int| 0 <= i < j < claimed.len() implies (
        #[trigger] claimed[j]).created_at.not_before((#[trigger] claimed[i]).created_at) by {
            assert(claimed[i].created_at == log[i].created_at);
            assert(claimed[j].created_at == log[j].created_at);
        }
    }
    match policy {
        RetentionPolicy::KeepAll => {},
        RetentionPolicy::KeepLast(n) => {
            let kept = kept_log(log, policy, now);
            let dropped = log.len() - kept.len();
            assert forall|i: int, j: int| 0 <= i < j < kept.len() implies (
            #[trigger] kept[j]).created_at.not_before((#[trigger] kept[i]).created_at) by {
                assert(kept[i] == log[dropped + i]);
                assert(kept[j] == log[dropped + j]);
            }
        },
        RetentionPolicy::OlderThan(span) => {
            lemma_filter_in_order(
                log,
                |c: StoredView<S>| c.created_at.not_before(earlier(now, span)),
            );
        },
    }
}

/// What is left of a log in order is in order, and ends no later.
proof fn lemma_filter_in_order<S>(
    log: Seq<StoredView<S>>,
    keep: spec_fn(StoredView<S>) -> bool,
)
    requires
        in_order(log),
    ensures
        in_order(log.filter(keep)),
        forall|i: int|
            0 <= i < log.filter(keep).len() ==> log.last().created_at.not_before(
                (#[trigger] log.filter(keep)[i]).created_at,
            ),
    decreases log.len(),
{
    reveal(Seq::filter);
    if log.len() > 0 {
        let rest = log.drop_last();
        let kept = rest.filter(keep);
        assert forall|i: int, j: int| 0 <= i < j < rest.len() implies (
        #[trigger] rest[j]).created_at.not_before((#[trigger] rest[i]).created_at) by {
            assert(rest[i] == log[i] && rest[j] == log[j]);
        }
        lemma_filter_in_order(rest, keep);
        let all = log.filter(keep);
        assert forall|i: int| 0 <= i < all.len() implies log.last().created_at.not_before(
            (#[trigger] all[i]).created_at,
        ) by {
            if i < kept.len() {
                assert(all[i] == kept[i]);
                assert(rest.last().created_at.not_before(kept[i].created_at));
                if rest.len() > 0 {
                    assert(log[log.len() - 1].created_at.not_before(
                        log[rest.len() - 1].created_at,
                    ));
                }
            }
        }
        assert forall|i: int, j: int| 0 <= i < j < all.len() implies (
        #[trigger] all[j]).created_at.not_before((#[trigger] all[i]).created_at) by {
            assert(all[i] == kept[i]);
            if j < kept.len() {
                assert(all[j] == kept[j]);
            } else {
                assert(all[j] == log.last());
                assert(log.last().created_at.not_before(all[i].created_at));
            }
        }
    }
}

proof fn lemma_filter_contains<A>(items: Seq<A>, keep: spec_fn(A) -> bool, x: A)
    ensures
        items.filter(keep).contains(x) <==> items.contains(x) && keep(x),
    decreases items.len(),
{
    reveal(Seq::filter);
    if items.len() > 0 {
        let rest = items.drop_last();
        let kept = rest.filter(keep);
        lemma_filter_contains(rest, keep, x);
        if kept.contains(x) {
            let i = kept.index_of(x);
            assert(items.filter(keep)[i] == x);
        }
        if rest.contains(x) {
            let i = rest.index_of(x);
            assert(items[i] == x);
        }
        if items.contains(x) && !rest.contains(x) {
            let i = items.index_of(x);
            if i < rest.len() {
                assert(rest[i] == x);
            }
            assert(x == items.last());
            if keep(x) {
                assert(items.filter(keep)[kept.len() as int] == x);
            }
        }
        if items.filter(keep).contains(x) && !kept.contains(x) {
            let i = items.filter(keep).index_of(x);
            if i < kept.len() {
                assert(kept[i] == x);
            }
            assert(x == items.last());
            assert(items[items.len() - 1] == x);
        }
    }
}

proof fn lemma_filter_twice<A>(items: Seq<A>, keep: spec_fn(A) -> bool)
    ensures
        items.filter(keep).filter(keep) == items.filter(keep),
    decreases items.len(),
{
    reveal(Seq::filter);
    if items.len() > 0 {
        let rest = items.drop_last();
        lemma_filter_twice(rest, keep);
        if keep(items.last()) {
            let kept = rest.filter(keep);
            assert(items.filter(keep) == kept.push(items.last()));
            assert(kept.push(items.last()).drop_last() =~= kept);
        }
    }
}

/// What a claim finds in a log: the interrupt resolved where any checkpoint says
/// so; the last checkpoint waiting for it where that yielded with its request;
/// the last checkpoint held by it where that runs under it.
pub proof fn law_claims_read_the_log<S>(log: Seq<StoredView<S>>, interrupt_id: Seq<char>)
    ensures
        forall|i: int|
            0 <= i < log.len() && (#[trigger] log[i]).resolved_interrupt == Some(interrupt_id)
                ==> resolved_in(log, interrupt_id),
        (forall|i: int|
            0 <= i < log.len() ==> (#[trigger] log[i]).resolved_interrupt != Some(interrupt_id))
            ==> !resolved_in(log, interrupt_id),
        (latest_of(log) is Some && waits_for(latest_of(log)->0, interrupt_id)) <==> log.len() > 0
            && log.last().status == CheckpointStatus::Yielded && log.last().yield_request is Some
            && log.last().yield_request->0.interrupt_id == interrupt_id,
        (latest_of(log) is Some && held_by(latest_of(log)->0, interrupt_id)) <==> log.len() > 0
            && log.last().status == CheckpointStatus::Running && log.last().claimed_interrupt
            == Some(interrupt_id),
        latest_of(log) is None <==> log.len() == 0,
        claim_refused(resolved_in(log, interrupt_id), latest_of(log), interrupt_id)
            <==> !resolved_in(log, interrupt_id) && (log.len() == 0 || !((log.last().status
            == CheckpointStatus::Yielded && log.last().yield_request is Some
            && log.last().yield_request->0.interrupt_id == interrupt_id) || (log.last().status
            == CheckpointStatus::Running && log.last().claimed_interrupt == Some(interrupt_id)))),
{
}

/// What is loaded is what was saved: the state, the DAG, and every field of the
/// metadata.
pub proof fn law_loaded_parts_are_those_saved<S>(
    parts: (&S, CheckpointMeta, Option<&DAG>),
    stored: StoredView<S>,
    thread_id: Seq<char>,
)
    requires
        reads_back(parts, stored, thread_id),
    ensures
        *parts.0 == stored.state,
        parts.1.checkpoint_id@ == stored.checkpoint_id,
        parts.1.thread_id@ == thread_id,
        parts.1.next_node@ == stored.next_node,
        parts.1.status == stored.status,
        parts.1.created_at == stored.created_at,
        parts.1@.yield_request == stored.yield_request,
        parts.1@.claimed_interrupt == stored.claimed_interrupt,
        parts.1@.resolved_interrupt == stored.resolved_interrupt,
        parts.1.graph_version is None,
        parts.1.state_schema_version is None,
        parts.2 is Some <==> stored.dag is Some,
        parts.2 is Some ==> stored.dag->0 == parts.2->0@,
{
}

/// What loading by thread finds: the checkpoint saved last, and nothing exactly
/// where none was saved; listing gives them all in the order of the log.
pub proof fn law_loads_find_the_last<S>(
    store: &InMemoryCheckpointer<S>,
    thread_id: &str,
    loaded: Option<(&S, CheckpointMeta, Option<&DAG>)>,
    metas: Vec<CheckpointMeta>,
)
    requires
        store.wf(),
        call_ensures(InMemoryCheckpointer::<S>::load_state, (store, thread_id), loaded),
        call_ensures(InMemoryCheckpointer::<S>::list_checkpoints, (store, thread_id), metas),
    ensures
        loaded is Some <==> store.log(thread_id@).len() > 0,
        loaded matches Some(parts) ==> {
            let last = store.log(thread_id@).last();
            &&& *parts.0 == last.state
            &&& parts.1.checkpoint_id@ == last.checkpoint_id
            &&& parts.1.next_node@ == last.next_node
            &&& parts.1.status == last.status
            &&& metas@.len() > 0
            &&& metas@.last()@ == parts.1@
        },
        metas@.len() == store.log(thread_id@).len(),
        forall|i: int|
            0 <= i < metas@.len() ==> (#[trigger] metas@[i]).checkpoint_id@ == store.log(
                thread_id@,
            )[i].checkpoint_id && metas@[i].next_node@ == store.log(thread_id@)[i].next_node
                && metas@[i].status == store.log(thread_id@)[i].status && metas@[i].created_at
                == store.log(thread_id@)[i].created_at,
{
    assert forall|i: int| 0 <= i < metas@.len() implies (#[trigger] metas@[i]).checkpoint_id@
        == store.log(thread_id@)[i].checkpoint_id && metas@[i].next_node@ == store.log(
        thread_id@,
    )[i].next_node && metas@[i].status == store.log(thread_id@)[i].status && metas@[i].created_at
        == store.log(thread_id@)[i].created_at by {
        assert(metas@[i]@ == stored_meta(store.log(thread_id@)[i], thread_id@));
    }
    if metas@.len() > 0 {
        assert(metas@[metas@.len() - 1]@ == stored_meta(
            store.log(thread_id@)[metas@.len() - 1],
            thread_id@,
        ));
    }
}

/// What loading by identifier finds: a checkpoint with that identifier, and
/// nothing exactly where there is none.
pub proof fn law_versions_are_found<S>(
    store: &InMemoryCheckpointer<S>,
    thread_id: &str,
    checkpoint_id: &str,
    loaded: Option<(&S, CheckpointMeta, Option<&DAG>)>,
    i: int,
)
    requires
        store.wf(),
        call_ensures(
            InMemoryCheckpointer::<S>::load_version,
            (store, thread_id, checkpoint_id),
            loaded,
        ),
        0 <= i < store.log(thread_id@).len(),
        store.log(thread_id@)[i].checkpoint_id == checkpoint_id@,
        forall|j: int|
            0 <= j < store.log(thread_id@).len() && j != i ==> (#[trigger] store.log(
                thread_id@,
            )[j]).checkpoint_id != checkpoint_id@,
    ensures
        loaded is Some,
        loaded matches Some(parts) ==> {
            &&& *parts.0 == store.log(thread_id@)[i].state
            &&& parts.1.checkpoint_id@ == checkpoint_id@
            &&& parts.1.next_node@ == store.log(thread_id@)[i].next_node
            &&& parts.1.status == store.log(thread_id@)[i].status
        },
{
    assert(store.log(thread_id@)[i].checkpoint_id == checkpoint_id@);
    assert(has_version(store.log(thread_id@), checkpoint_id@));
    match loaded {
        Some(parts) => {
            let k = choose|k: int| #[trigger]
                first_with_id(store.log(thread_id@), checkpoint_id@, k) && reads_back(
                    parts,
                    store.log(thread_id@)[k],
                    thread_id@,
                );
            assert(first_with_id(store.log(thread_id@), checkpoint_id@, k));
            assert(store.log(thread_id@)[k].checkpoint_id == checkpoint_id@);
            assert(k == i);
            law_loaded_parts_are_those_saved(parts, store.log(thread_id@)[i], thread_id@);
        },
        None => {},
    }
}

/// Deleting by age keeps a checkpoint exactly where it was created no longer ago
/// than the span.
pub proof fn law_age_is_counted_in_nanoseconds<S>(
    log: Seq<StoredView<S>>,
    span: TimeSpan,
    now: Timestamp,
    c: StoredView<S>,
)
    requires
        log.contains(c),
        now.ordinary(),
        span.nanos < 1_000_000_000,
        span.secs <= 8_000_000_000_000,
        now.secs >= 0,
        c.created_at.nanos < 1_000_000_000,
    ensures
        kept_log(log, RetentionPolicy::OlderThan(span), now).contains(c) <==> (now.secs
            - c.created_at.secs) * 1_000_000_000 + now.nanos - c.created_at.nanos <= span.secs
            * 1_000_000_000 + span.nanos,
{
    law_older_than_keeps_the_recent(log, span, now, c);
    let at = now.since_epoch() - span.total_nanos();
    let cutoff = earlier(now, span);
    assert(-8_000_000_000_001 * 1_000_000_000 <= at);
    assert(cutoff.secs == at / 1_000_000_000 && cutoff.nanos == at % 1_000_000_000);
}

/// A row is read column by column, its status by name; what could not be decoded
/// is reported.
pub proof fn law_rows_are_read_by_column(
    row: CheckpointRow,
    thread_id: &str,
    created_at: Timestamp,
    yield_request: Result<Option<YieldRequest>, String>,
    meta: Result<CheckpointMeta, TakelnError>,
)
    requires
        call_ensures(read_meta, (row, thread_id, created_at, yield_request), meta),
    ensures
        meta is Ok <==> yield_request is Ok,
        meta matches Ok(m) ==> {
            &&& m.checkpoint_id@ == row.id@
            &&& m.thread_id@ == thread_id@
            &&& m.next_node@ == row.next_node@
            &&& m.created_at == created_at
            &&& row.claimed_interrupt is Some ==> m@.claimed_interrupt == Some(
                row.claimed_interrupt->0@,
            )
            &&& row.claimed_interrupt is None ==> m@.claimed_interrupt is None
            &&& row.resolved_interrupt is Some ==> m@.resolved_interrupt == Some(
                row.resolved_interrupt->0@,
            )
            &&& row.resolved_interrupt is None ==> m@.resolved_interrupt is None
            &&& yield_request->Ok_0 is Some ==> m@.yield_request == Some(yield_request->Ok_0->0@)
            &&& yield_request->Ok_0 is None ==> m@.yield_request is None
            &&& row.status@ == "Running"@ ==> m.status == CheckpointStatus::Running
            &&& row.status@ == "Yielded"@ ==> m.status == CheckpointStatus::Yielded
            &&& row.status@ == "Failed"@ ==> m.status == CheckpointStatus::Failed
            &&& row.status@ == "Interrupted"@ ==> m.status == CheckpointStatus::Interrupted
            &&& row.status@ == "Complete"@ ==> m.status == CheckpointStatus::Complete
        },
        meta matches Err(error) ==> error@ == TakelnErrorView::DeserializationError(
            yield_request->Err_0@,
        ),
{
    reveal_strlit("Complete");
    reveal_strlit("Running");
    reveal_strlit("Yielded");
    reveal_strlit("Failed");
    reveal_strlit("Interrupted");
    let names = seq!["Complete"@, "Running"@, "Yielded"@, "Failed"@, "Interrupted"@];
    assert(names[0][0] == 'C' && names[1][0] == 'R' && names[2][0] == 'Y' && names[3][0] == 'F'
        && names[4][0] == 'I');
}

/// What a policy deletes: nothing, all but the newest, or what was created before
/// the instant the span ago.
pub proof fn law_pruning_follows_the_policy(
    policy: RetentionPolicy,
    now: Timestamp,
    plan: Result<Pruning, TakelnError>,
)
    requires
        now.ordinary(),
        within_calendar(policy, now),
        call_ensures(plan_pruning, (policy, now), plan),
    ensures
        policy is KeepAll ==> plan == Ok::<Pruning, TakelnError>(Pruning::Nothing),
        policy matches RetentionPolicy::KeepLast(n) ==> plan == Ok::<Pruning, TakelnError>(
            Pruning::AllButNewest(n),
        ),
        policy is OlderThan ==> {
            let span = policy->OlderThan_0;
            &&& plan is Ok <==> span.secs * 1_000_000_000 + span.nanos <= 0x7fff_ffff_ffff_ffff
                * 1_000_000
            &&& plan is Ok ==> plan->Ok_0 is CreatedBefore && (now.secs
                - plan->Ok_0->CreatedBefore_0.secs) * 1_000_000_000 + now.nanos
                - plan->Ok_0->CreatedBefore_0.nanos == span.secs * 1_000_000_000 + span.nanos
        },
{
    if policy is OlderThan && plan is Ok {
        let span = policy->OlderThan_0;
        let at = now.since_epoch() - span.total_nanos();
        assert(earlier(now, span).secs == at / 1_000_000_000 && earlier(now, span).nanos == at
            % 1_000_000_000);
    }
}

/// What is done to one thread leaves the checkpoints of every other as they are.
pub proof fn law_threads_are_kept_apart<S>(
    after: InMemoryCheckpointer<S>,
    before: InMemoryCheckpointer<S>,
    thread_id: Seq<char>,
    other: Seq<char>,
)
    requires
        after.same_elsewhere(before, thread_id),
        other != thread_id,
    ensures
        after.log(other) == before.log(other),
        after.knows(other) == before.knows(other),
{
    assert(after.log(other) == before.log(other));
}

} // verus!
