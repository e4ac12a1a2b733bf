//! Timer commands and the arithmetic of a running protocol timer.

use vstd::prelude::*;

verus! {

/// What a transition asks the driver to do with the protocol timer.
#[derive(PartialEq, Eq, Clone, Copy, Debug, Structural)]
pub enum TimerCmd {
    /// Leave the timer as it is.
    Keep,
    /// Start the timer, or restart it when it is running: the origin becomes
    /// now and the next receive may wait for the full timeout.
    Start,
    /// Stop the timer.
    Stop,
}

/// Time left of a timer of `timeout` units that has run for `elapsed` units;
/// `None` once it has expired.
pub fn remaining_budget(timeout: u64, elapsed: u64) -> (r: Option<u64>)
    ensures
        elapsed >= timeout <==> r is None,
        r matches Some(left) ==> left == timeout - elapsed && 0 < left <= timeout,
{
    if elapsed >= timeout {
        None
    } else {
        Some(timeout - elapsed)
    }
}

} // verus!
