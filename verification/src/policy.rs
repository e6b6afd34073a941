//! When a job is looked at again.

use crate::error::Error;
use vstd::prelude::*;

verus! {

/// The delay before a failed reconciliation is tried again, in seconds.
pub const REQUEUE_DELAY_SECS: u64 = 360;

/// What follows a reconciliation: look at the job again after
/// `requeue_after` seconds, or not before it changes.
#[derive(Clone, Copy, Debug, PartialEq, Eq)]
pub struct ReconcilerAction {
    pub requeue_after: Option<u64>,
}

/// The action after a failure: the same for every error.
pub open spec fn retry_action() -> ReconcilerAction {
    ReconcilerAction { requeue_after: Some(REQUEUE_DELAY_SECS) }
}

/// The action after a reconciliation that ended with `outcome`.
pub open spec fn requeue_for(outcome: Result<ReconcilerAction, Error>) -> ReconcilerAction {
    match outcome {
        Ok(action) => action,
        Err(_) => retry_action(),
    }
}

/// Decides what follows a failed reconciliation: whatever the error, the job
/// is tried again after the fixed delay.
pub fn error_policy(error: &Error) -> (action: ReconcilerAction)
    ensures
        action == retry_action(),
        action.requeue_after == Some(REQUEUE_DELAY_SECS),
{
    ReconcilerAction { requeue_after: Some(REQUEUE_DELAY_SECS) }
}

/// Decides what follows a reconciliation: its own action where it
/// succeeded, the fixed delay where it failed.
pub fn requeue_decision(outcome: &Result<ReconcilerAction, Error>) -> (action: ReconcilerAction)
    ensures
        action == requeue_for(*outcome),
{
    match outcome {
        Ok(action) => *action,
        Err(e) => error_policy(e),
    }
}

/// Two failed reconciliations are retried after the same delay, whatever
/// their errors are.
pub proof fn lemma_requeue_ignores_error_kind(first: Error, second: Error)
    ensures
        requeue_for(Err(first)) == requeue_for(Err(second)),
        requeue_for(Err(first)).requeue_after == Some(REQUEUE_DELAY_SECS),
{
}

} // verus!
