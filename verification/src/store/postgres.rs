//! The notation in which the PostgreSQL store keeps checkpoints.
use crate::checkpoint_meta::{status_named, CheckpointStatus};
use vstd::prelude::*;

verus! {

/// The status that a stored name stands for, `Complete` where it is none.
pub fn parse_checkpoint_status(s: &str) -> (status: CheckpointStatus)
    ensures
        status == status_named(s@),
{
    CheckpointStatus::from_name(s)
}

} // verus!
