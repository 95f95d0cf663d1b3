//! What database stores share: reading rows back and planning what to prune.
use crate::checkpoint_meta::{
    status_named, CheckpointMeta, CheckpointMetaView, CheckpointStatus, RetentionPolicy,
};
use crate::clock::{
    before, check_span, earlier, first_second, fits_millis, nanos_per_sec, out_of_range_text,
    Timestamp,
};
use crate::dag::DAG;
use crate::error::{TakelnError, TakelnErrorView};
use crate::hitl::{request_option, YieldRequest, YieldRequestView};
use crate::text::text_option;
use vstd::prelude::*;
use vstd::string::*;

verus! {

/// The columns of a checkpoint that need no further decoding.
#[derive(Debug)]
pub struct CheckpointRow {
    pub id: String,
    pub next_node: String,
    pub status: String,
    pub claimed_interrupt: Option<String>,
    pub resolved_interrupt: Option<String>,
}

/// The metadata that a row of a thread stands for.
pub open spec fn row_meta(
    row: CheckpointRow,
    thread_id: Seq<char>,
    created_at: Timestamp,
    yield_request: Option<YieldRequestView>,
) -> CheckpointMetaView {
    CheckpointMetaView {
        checkpoint_id: row.id@,
        thread_id,
        next_node: row.next_node@,
        graph_version: None,
        state_schema_version: None,
        status: status_named(row.status@),
        created_at,
        yield_request,
        claimed_interrupt: text_option(row.claimed_interrupt),
        resolved_interrupt: text_option(row.resolved_interrupt),
    }
}

/// Makes the metadata of a row, unless its yield request could not be decoded.
pub fn read_meta(
    row: CheckpointRow,
    thread_id: &str,
    created_at: Timestamp,
    yield_request: Result<Option<YieldRequest>, String>,
) -> (meta: Result<CheckpointMeta, TakelnError>)
    ensures
        match yield_request {
            Ok(request) => meta is Ok && meta->Ok_0@ == row_meta(
                row,
                thread_id@,
                created_at,
                request_option(request),
            ),
            Err(reason) => meta is Err && meta->Err_0@ == TakelnErrorView::DeserializationError(
                reason@,
            ),
        },
{
    match yield_request {
        Err(reason) => Err(TakelnError::DeserializationError(reason)),
        Ok(request) => Ok(
            CheckpointMeta {
                checkpoint_id: row.id,
                thread_id: thread_id.to_owned(),
                next_node: row.next_node,
                graph_version: None,
                state_schema_version: None,
                status: CheckpointStatus::from_name(row.status.as_str()),
                created_at,
                yield_request: request,
                claimed_interrupt: row.claimed_interrupt,
                resolved_interrupt: row.resolved_interrupt,
            },
        ),
    }
}

/// Puts a loaded checkpoint together. The first part that could not be decoded
/// is reported: the state, then the DAG, then the yield request.
pub fn read_checkpoint<S>(
    row: CheckpointRow,
    thread_id: &str,
    created_at: Timestamp,
    state: Result<S, String>,
    dag: Result<Option<DAG>, String>,
    yield_request: Result<Option<YieldRequest>, String>,
) -> (loaded: Result<(S, CheckpointMeta, Option<DAG>), TakelnError>)
    ensures
        loaded is Ok <==> state is Ok && dag is Ok && yield_request is Ok,
        loaded matches Ok(parts) ==> {
            &&& parts.0 == state->Ok_0
            &&& parts.1@ == row_meta(
                row,
                thread_id@,
                created_at,
                request_option(yield_request->Ok_0),
            )
            &&& parts.2 == dag->Ok_0
        },
        state matches Err(reason) ==> loaded is Err && loaded->Err_0@
            == TakelnErrorView::DeserializationError(reason@),
        state is Ok && dag is Err ==> loaded is Err && loaded->Err_0@
            == TakelnErrorView::DeserializationError(dag->Err_0@),
        state is Ok && dag is Ok && yield_request is Err ==> loaded is Err && loaded->Err_0@
            == TakelnErrorView::DeserializationError(yield_request->Err_0@),
{
    match (state, dag) {
        (Err(reason), _) => Err(TakelnError::DeserializationError(reason)),
        (Ok(_), Err(reason)) => Err(TakelnError::DeserializationError(reason)),
        (Ok(state), Ok(dag)) => match read_meta(row, thread_id, created_at, yield_request) {
            Ok(meta) => Ok((state, meta, dag)),
            Err(error) => Err(error),
        },
    }
}

/// How a message shows the stored name of a status: in quotes.
pub fn quoted_status(name: &str) -> (shown: String)
    ensures
        shown@ == "'"@ + name@ + "'"@,
{
    let mut shown = String::from_str("'");
    shown.append(name);
    shown.append("'");
    shown
}

/// What a retention policy deletes, at a given time.
#[derive(Debug, Clone, Copy)]
pub enum Pruning {
    /// Nothing.
    Nothing,
    /// All but the newest checkpoints.
    AllButNewest(usize),
    /// The checkpoints created before an instant.
    CreatedBefore(Timestamp),
}

/// The span that `OlderThan` names, if it can be counted back from `now`: a
/// longer one either is refused or would reach before the first calendar date.
pub open spec fn within_calendar(policy: RetentionPolicy, now: Timestamp) -> bool {
    policy matches RetentionPolicy::OlderThan(span) ==> {
        &&& span.wf()
        &&& fits_millis(span) ==> now.since_epoch() - span.total_nanos() >= first_second()
            * nanos_per_sec()
    }
}

/// Whether the policy names a span too long for a count of milliseconds.
pub open spec fn span_refused(policy: RetentionPolicy) -> bool {
    policy matches RetentionPolicy::OlderThan(span) && !fits_millis(span)
}

/// Whether a policy can be planned at `now`.
pub fn can_plan(policy: RetentionPolicy, now: Timestamp) -> (plannable: bool)
    requires
        now.ordinary(),
    ensures
        plannable == within_calendar(policy, now),
{
    match policy {
        RetentionPolicy::OlderThan(span) => {
            if span.nanos >= 1_000_000_000 {
                return false;
            }
            match check_span(span) {
                Err(_) => true,
                Ok(()) => before(now, span).is_some(),
            }
        },
        _ => true,
    }
}

/// Plans what a policy deletes.
pub fn plan_pruning(policy: RetentionPolicy, now: Timestamp) -> (plan: Result<Pruning, TakelnError>)
    requires
        now.ordinary(),
        within_calendar(policy, now),
    ensures
        plan is Err <==> span_refused(policy),
        plan matches Err(error) ==> error@ == TakelnErrorView::CheckpointError(out_of_range_text()),
        policy is KeepAll ==> plan == Ok::<Pruning, TakelnError>(Pruning::Nothing),
        policy matches RetentionPolicy::KeepLast(n) ==> plan == Ok::<Pruning, TakelnError>(
            Pruning::AllButNewest(n),
        ),
        policy matches RetentionPolicy::OlderThan(span) ==> (plan matches Ok(p) ==> p
            == Pruning::CreatedBefore(earlier(now, span))),
{
    match policy {
        RetentionPolicy::KeepAll => Ok(Pruning::Nothing),
        RetentionPolicy::KeepLast(n) => Ok(Pruning::AllButNewest(n)),
        RetentionPolicy::OlderThan(span) => {
            match check_span(span) {
                Err(reason) => Err(TakelnError::CheckpointError(reason)),
                Ok(()) => match before(now, span) {
                    Some(cutoff) => Ok(Pruning::CreatedBefore(cutoff)),
                    None => {
                        assert(false);
                        Ok(Pruning::Nothing)
                    },
                },
            }
        },
    }
}

} // verus!
