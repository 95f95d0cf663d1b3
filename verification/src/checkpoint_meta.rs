//! Checkpoint metadata and the policies that govern checkpoints.
use crate::clock::{TimeSpan, Timestamp};
use crate::hitl::{copy_request, copy_text, request_option, YieldRequest, YieldRequestView};
use crate::text::{same_text, text_option};
use vstd::prelude::*;
use vstd::string::*;

verus! {

/// Status of a checkpoint, indicating what the graph was doing when the checkpoint was taken.
#[derive(Debug, Clone, Copy, PartialEq, Eq, Structural)]
pub enum CheckpointStatus {
    /// The graph completed a node successfully and checkpointed before the next node.
    Complete,
    /// A node was mid-execution when the process was interrupted (crash recovery scenario).
    Running,
    /// A node yielded, suspending execution for external input (human-in-the-loop).
    Yielded,
    /// A node failed after exhausting retries.
    Failed,
    /// The graph was interrupted by a HITL `interrupt_before` or `interrupt_after` gate.
    Interrupted,
}

/// The name under which stores keep a status.
pub open spec fn status_text(status: CheckpointStatus) -> Seq<char> {
    match status {
        CheckpointStatus::Complete => "Complete"@,
        CheckpointStatus::Running => "Running"@,
        CheckpointStatus::Yielded => "Yielded"@,
        CheckpointStatus::Failed => "Failed"@,
        CheckpointStatus::Interrupted => "Interrupted"@,
    }
}

/// The status that a name stands for; a name that no status has stands for
/// `Complete`.
pub open spec fn status_named(name: Seq<char>) -> CheckpointStatus {
    if name == "Running"@ {
        CheckpointStatus::Running
    } else if name == "Yielded"@ {
        CheckpointStatus::Yielded
    } else if name == "Failed"@ {
        CheckpointStatus::Failed
    } else if name == "Interrupted"@ {
        CheckpointStatus::Interrupted
    } else {
        CheckpointStatus::Complete
    }
}

impl CheckpointStatus {
    /// The name under which stores keep the status.
    pub fn name(&self) -> (name: &'static str)
        ensures
            name@ == status_text(*self),
    {
        match self {
            CheckpointStatus::Complete => "Complete",
            CheckpointStatus::Running => "Running",
            CheckpointStatus::Yielded => "Yielded",
            CheckpointStatus::Failed => "Failed",
            CheckpointStatus::Interrupted => "Interrupted",
        }
    }

    /// The status that a stored name stands for, `Complete` where it is none.
    pub fn from_name(name: &str) -> (status: CheckpointStatus)
        ensures
            status == status_named(name@),
    {
        if same_text(name, "Running") {
            CheckpointStatus::Running
        } else if same_text(name, "Yielded") {
            CheckpointStatus::Yielded
        } else if same_text(name, "Failed") {
            CheckpointStatus::Failed
        } else if same_text(name, "Interrupted") {
            CheckpointStatus::Interrupted
        } else {
            CheckpointStatus::Complete
        }
    }
}

/// A status is read back as it was written, and no two statuses share a name.
pub proof fn law_status_names_read_back(status: CheckpointStatus, other: CheckpointStatus)
    ensures
        status_named(status_text(status)) == status,
        status_text(status) == status_text(other) ==> status == other,
{
    reveal_strlit("Complete");
    reveal_strlit("Running");
    reveal_strlit("Yielded");
    reveal_strlit("Failed");
    reveal_strlit("Interrupted");
    let names = seq!["Complete"@, "Running"@, "Yielded"@, "Failed"@, "Interrupted"@];
    assert(names[0][0] == 'C' && names[1][0] == 'R' && names[2][0] == 'Y' && names[3][0] == 'F'
        && names[4][0] == 'I');
}

/// Metadata associated with a checkpoint snapshot.
///
/// Contains versioning information, timing, and status for crash recovery
/// and checkpoint management.
#[derive(Debug)]
pub struct CheckpointMeta {
    /// Unique identifier for this checkpoint.
    pub checkpoint_id: String,
    /// The thread this checkpoint belongs to.
    pub thread_id: String,
    /// The node that should execute next when resuming.
    pub next_node: String,
    /// Optional application-defined graph version string for compatibility checking.
    pub graph_version: Option<String>,
    /// Optional application-defined state schema version for migration detection.
    pub state_schema_version: Option<String>,
    /// What the graph was doing when this checkpoint was created.
    pub status: CheckpointStatus,
    /// When this checkpoint was created.
    pub created_at: Timestamp,
    /// The yield request that caused this checkpoint, if status is `Yielded`.
    pub yield_request: Option<YieldRequest>,
    /// The interrupt that was claimed for this execution, indicating that a
    /// resume has been started for it.
    pub claimed_interrupt: Option<String>,
    /// The interrupt that was last resolved by a resume. A caller who retries
    /// with the same interrupt gets the current state instead of an error.
    pub resolved_interrupt: Option<String>,
}

/// The contents of [`CheckpointMeta`].
pub struct CheckpointMetaView {
    pub checkpoint_id: Seq<char>,
    pub thread_id: Seq<char>,
    pub next_node: Seq<char>,
    pub graph_version: Option<Seq<char>>,
    pub state_schema_version: Option<Seq<char>>,
    pub status: CheckpointStatus,
    pub created_at: Timestamp,
    pub yield_request: Option<YieldRequestView>,
    pub claimed_interrupt: Option<Seq<char>>,
    pub resolved_interrupt: Option<Seq<char>>,
}

impl View for CheckpointMeta {
    type V = CheckpointMetaView;

    open spec fn view(&self) -> CheckpointMetaView {
        CheckpointMetaView {
            checkpoint_id: self.checkpoint_id@,
            thread_id: self.thread_id@,
            next_node: self.next_node@,
            graph_version: text_option(self.graph_version),
            state_schema_version: text_option(self.state_schema_version),
            status: self.status,
            created_at: self.created_at,
            yield_request: request_option(self.yield_request),
            claimed_interrupt: text_option(self.claimed_interrupt),
            resolved_interrupt: text_option(self.resolved_interrupt),
        }
    }
}

impl Clone for CheckpointMeta {
    fn clone(&self) -> (meta: Self)
        ensures
            meta@ == self@,
    {
        CheckpointMeta {
            checkpoint_id: self.checkpoint_id.clone(),
            thread_id: self.thread_id.clone(),
            next_node: self.next_node.clone(),
            graph_version: copy_text(&self.graph_version),
            state_schema_version: copy_text(&self.state_schema_version),
            status: self.status,
            created_at: self.created_at,
            yield_request: copy_request(&self.yield_request),
            claimed_interrupt: copy_text(&self.claimed_interrupt),
            resolved_interrupt: copy_text(&self.resolved_interrupt),
        }
    }
}

/// Policy for retaining or pruning old checkpoints.
#[derive(Debug, Clone, Copy)]
pub enum RetentionPolicy {
    /// Keep all checkpoints (no pruning).
    KeepAll,
    /// Keep only the most recent N checkpoints per thread, deleting older ones.
    KeepLast(usize),
    /// Delete checkpoints older than the given duration.
    OlderThan(TimeSpan),
}

/// Policy for handling checkpoints with `Running` status during resume (crash recovery).
///
/// When a process crashes mid-execution, the last checkpoint may have `status: Running`.
/// This policy determines how the graph executor handles that scenario.
#[derive(Debug, Clone, Copy, PartialEq, Eq, Structural)]
pub enum CrashRecoveryPolicy {
    /// Reset the interrupted node to `Pending` and re-execute it. This is the safest default.
    ResetToPending,
    /// Return an error immediately without attempting re-execution.
    FailFast,
    /// Skip the interrupted node (mark as `Done`) and continue with the next node.
    SkipAndContinue,
}

impl Default for CrashRecoveryPolicy {
    fn default() -> (policy: Self)
        ensures
            policy == CrashRecoveryPolicy::ResetToPending,
    {
        CrashRecoveryPolicy::ResetToPending
    }
}

} // verus!
