//! What is saved, and who may resume what was saved.
use crate::checkpoint_meta::CheckpointStatus;
use crate::error::{TakelnError, TakelnErrorView};
use crate::hitl::{request_option, YieldRequest, YieldRequestView};
use crate::text::{same_text, text_option};
use vstd::prelude::*;
use vstd::string::*;

verus! {

/// A checkpoint to be saved under a thread, apart from the state and the DAG
/// that go with it.
#[derive(Debug)]
pub struct SaveRequest {
    /// The thread that the checkpoint belongs to.
    pub thread_id: String,
    /// The node where execution will resume.
    pub next_node: String,
    /// What the graph was doing when the checkpoint was taken.
    pub status: CheckpointStatus,
    /// The yield request that suspended the run, if any.
    pub yield_request: Option<YieldRequest>,
    /// The interrupt that is claimed, if any.
    pub claimed_interrupt: Option<String>,
    /// The interrupt that the run resolved, if any.
    pub resolved_interrupt: Option<String>,
}

/// The contents of a [`SaveRequest`].
pub struct SaveRequestView {
    pub thread_id: Seq<char>,
    pub next_node: Seq<char>,
    pub status: CheckpointStatus,
    pub yield_request: Option<YieldRequestView>,
    pub claimed_interrupt: Option<Seq<char>>,
    pub resolved_interrupt: Option<Seq<char>>,
}

impl View for SaveRequest {
    type V = SaveRequestView;

    open spec fn view(&self) -> SaveRequestView {
        SaveRequestView {
            thread_id: self.thread_id@,
            next_node: self.next_node@,
            status: self.status,
            yield_request: request_option(self.yield_request),
            claimed_interrupt: text_option(self.claimed_interrupt),
            resolved_interrupt: text_option(self.resolved_interrupt),
        }
    }
}

/// How a claim on an interrupt ended.
#[derive(Debug, Clone, Copy, PartialEq, Eq, Structural)]
pub enum ClaimResult {
    /// The caller holds the interrupt and may resume it.
    Claimed,
    /// Another resume of the interrupt is under way.
    InProgress,
    /// The interrupt was resolved before.
    AlreadyCompleted,
}

/// The yield request that a latest checkpoint holds, as far as it can be read.
#[derive(Debug)]
pub enum PendingRequest {
    /// There is none.
    Absent,
    /// There is one that cannot be read, and why.
    Unreadable(String),
    /// There is one for this interrupt.
    Interrupt(String),
}

/// What a claim reads of the latest checkpoint of a thread.
#[derive(Debug)]
pub struct LatestCheckpoint {
    pub status: CheckpointStatus,
    /// The status as it is shown in messages.
    pub shown_status: String,
    pub request: PendingRequest,
    pub claimed_interrupt: Option<String>,
}

/// The contents of a [`PendingRequest`].
pub enum PendingRequestView {
    Absent,
    Unreadable(Seq<char>),
    Interrupt(Seq<char>),
}

/// The contents of a [`LatestCheckpoint`].
pub struct LatestCheckpointView {
    pub status: CheckpointStatus,
    pub shown_status: Seq<char>,
    pub request: PendingRequestView,
    pub claimed_interrupt: Option<Seq<char>>,
}

impl View for PendingRequest {
    type V = PendingRequestView;

    open spec fn view(&self) -> PendingRequestView {
        match self {
            PendingRequest::Absent => PendingRequestView::Absent,
            PendingRequest::Unreadable(reason) => PendingRequestView::Unreadable(reason@),
            PendingRequest::Interrupt(id) => PendingRequestView::Interrupt(id@),
        }
    }
}

impl View for LatestCheckpoint {
    type V = LatestCheckpointView;

    open spec fn view(&self) -> LatestCheckpointView {
        LatestCheckpointView {
            status: self.status,
            shown_status: self.shown_status@,
            request: self.request@,
            claimed_interrupt: text_option(self.claimed_interrupt),
        }
    }
}

/// The contents of an optional latest checkpoint.
pub open spec fn latest_option(latest: Option<LatestCheckpoint>) -> Option<LatestCheckpointView> {
    match latest {
        Some(l) => Some(l@),
        None => None,
    }
}

/// Whether the latest checkpoint is held by a resume of the interrupt.
pub open spec fn held_by(latest: LatestCheckpointView, interrupt_id: Seq<char>) -> bool {
    latest.status == CheckpointStatus::Running && latest.claimed_interrupt == Some(interrupt_id)
}

/// Whether the latest checkpoint waits for exactly this interrupt.
pub open spec fn waits_for(latest: LatestCheckpointView, interrupt_id: Seq<char>) -> bool {
    latest.status == CheckpointStatus::Yielded && latest.request
        == PendingRequestView::Interrupt(interrupt_id)
}

/// Whether a claim is refused: the interrupt is neither resolved nor held by a
/// resume, and no checkpoint waits for it.
pub open spec fn claim_refused(
    resolved: bool,
    latest: Option<LatestCheckpointView>,
    interrupt_id: Seq<char>,
) -> bool {
    !resolved && match latest {
        None => true,
        Some(l) => !held_by(l, interrupt_id) && !waits_for(l, interrupt_id),
    }
}

/// Why a claim fails that neither finds the interrupt resolved or held nor a
/// checkpoint that waits for it.
pub open spec fn claim_refusal(
    thread_id: Seq<char>,
    interrupt_id: Seq<char>,
    latest: LatestCheckpointView,
) -> TakelnErrorView {
    match latest.status {
        CheckpointStatus::Yielded => match latest.request {
            PendingRequestView::Absent => TakelnErrorView::NothingToResume(
                "Thread '"@ + thread_id + "' has Yielded status but no yield_request metadata"@,
            ),
            PendingRequestView::Unreadable(reason) => TakelnErrorView::DeserializationError(reason),
            PendingRequestView::Interrupt(id) => wrong_interrupt(id, interrupt_id),
        },
        CheckpointStatus::Running => TakelnErrorView::ExecutionError(
            "Resume claim failed: thread '"@ + thread_id
                + "' is already running with claimed_interrupt '"@ + (
            match latest.claimed_interrupt {
                Some(id) => id,
                None => "none"@,
            }) + "'"@,
        ),
        _ => TakelnErrorView::NothingToResume(
            "Thread '"@ + thread_id + "' latest checkpoint status is "@ + latest.shown_status
                + ", expected Yielded"@,
        ),
    }
}

/// The error for a resume of another interrupt than the one waited for.
pub open spec fn wrong_interrupt(expected: Seq<char>, given: Seq<char>) -> TakelnErrorView {
    TakelnErrorView::InvalidResume(
        "Expected interrupt_id '"@ + expected + "', got '"@ + given + "'"@,
    )
}

/// The error for a resume of another interrupt than the one waited for.
pub(crate) fn wrong_interrupt_error(expected: &str, given: &str) -> (error: TakelnError)
    ensures
        error@ == wrong_interrupt(expected@, given@),
{
    let mut text = String::from_str("Expected interrupt_id '");
    text.append(expected);
    text.append("', got '");
    text.append(given);
    text.append("'");
    TakelnError::InvalidResume(text)
}

/// Decides a claim on an interrupt from what the store holds: `resolved` says
/// whether any checkpoint of the thread resolved the interrupt before, `latest`
/// is what the latest checkpoint shows.
///
/// `Claimed` is an entitlement: the store takes it up by marking the latest
/// checkpoint as running under this interrupt.
pub fn decide_claim(
    thread_id: &str,
    interrupt_id: &str,
    resolved: bool,
    latest: &Option<LatestCheckpoint>,
) -> (decision: Result<ClaimResult, TakelnError>)
    ensures
        decision == Ok::<ClaimResult, TakelnError>(ClaimResult::AlreadyCompleted) <==> resolved,
        decision == Ok::<ClaimResult, TakelnError>(ClaimResult::InProgress) <==> {
            &&& !resolved
            &&& latest_option(*latest) matches Some(l) && held_by(l, interrupt_id@)
        },
        decision == Ok::<ClaimResult, TakelnError>(ClaimResult::Claimed) <==> {
            &&& !resolved
            &&& latest_option(*latest) matches Some(l) && waits_for(l, interrupt_id@)
        },
        decision is Err <==> claim_refused(resolved, latest_option(*latest), interrupt_id@),
        decision matches Err(error) ==> match latest_option(*latest) {
            None => error@ == TakelnErrorView::NothingToResume(thread_id@),
            Some(l) => error@ == claim_refusal(thread_id@, interrupt_id@, l),
        },
{
    if resolved {
        return Ok(ClaimResult::AlreadyCompleted);
    }
    let last = match latest {
        None => {
            return Err(TakelnError::NothingToResume(thread_id.to_owned()));
        },
        Some(l) => l,
    };
    match last.status {
        CheckpointStatus::Yielded => match &last.request {
            PendingRequest::Absent => {
                let mut text = String::from_str("Thread '");
                text.append(thread_id);
                text.append("' has Yielded status but no yield_request metadata");
                Err(TakelnError::NothingToResume(text))
            },
            PendingRequest::Unreadable(reason) => Err(
                TakelnError::DeserializationError(reason.clone()),
            ),
            PendingRequest::Interrupt(id) => {
                if same_text(id.as_str(), interrupt_id) {
                    Ok(ClaimResult::Claimed)
                } else {
                    Err(wrong_interrupt_error(id.as_str(), interrupt_id))
                }
            },
        },
        CheckpointStatus::Running => {
            let holder = match &last.claimed_interrupt {
                Some(id) => {
                    if same_text(id.as_str(), interrupt_id) {
                        return Ok(ClaimResult::InProgress);
                    }
                    id.as_str()
                },
                None => "none",
            };
            let mut text = String::from_str("Resume claim failed: thread '");
            text.append(thread_id);
            text.append("' is already running with claimed_interrupt '");
            text.append(holder);
            text.append("'");
            Err(TakelnError::ExecutionError(text))
        },
        _ => {
            let mut text = String::from_str("Thread '");
            text.append(thread_id);
            text.append("' latest checkpoint status is ");
            text.append(last.shown_status.as_str());
            text.append(", expected Yielded");
            Err(TakelnError::NothingToResume(text))
        },
    }
}

/// Settles a claim that a database took up by one conditional update: the claim
/// holds exactly where one row changed.
pub fn settle_claim(thread_id: &str, rows_affected: u64) -> (settled: Result<
    ClaimResult,
    TakelnError,
>)
    ensures
        rows_affected == 1 ==> settled == Ok::<ClaimResult, TakelnError>(ClaimResult::Claimed),
        rows_affected != 1 ==> settled is Err && settled->Err_0@ == TakelnErrorView::ExecutionError(
            "Concurrent resume claim failed for thread '"@ + thread_id@ + "'"@,
        ),
{
    if rows_affected == 1 {
        Ok(ClaimResult::Claimed)
    } else {
        let mut text = String::from_str("Concurrent resume claim failed for thread '");
        text.append(thread_id);
        text.append("'");
        Err(TakelnError::ExecutionError(text))
    }
}

} // verus!
