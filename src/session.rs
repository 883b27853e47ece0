//! The client's decisions around starting the daemon and moving the divider;
//! the caller does the waiting, the spawning and the writing.

use vstd::prelude::*;
use crate::error::Error;

verus! {

/// How many times the client checks for a freshly spawned daemon.
pub const START_ATTEMPTS: u32 = 50;

/// Milliseconds between two checks for a freshly spawned daemon.
pub const START_POLL_MILLIS: u64 = 100;

/// Milliseconds to wait after stopping the daemon before writing its position.
pub const SETTLE_MILLIS: u64 = 300;

/// Milliseconds the client waits for a reply.
pub const REPLY_TIMEOUT_MILLIS: u64 = 2000;

/// What to do after a check for a freshly spawned daemon.
#[derive(Clone, Copy, Debug, PartialEq, Eq, Structural)]
pub enum StartPoll {
    /// The daemon answers: it has started.
    Ready,
    /// Wait and check again.
    Wait,
    /// Give up: the daemon did not start in time.
    GiveUp,
}

/// The decision after `checks` checks, the last of which found the daemon
/// reachable or not.
pub open spec fn start_poll_of(checks: u32, reachable: bool) -> StartPoll {
    if reachable {
        StartPoll::Ready
    } else if checks < START_ATTEMPTS {
        StartPoll::Wait
    } else {
        StartPoll::GiveUp
    }
}

/// The decision after a check for a freshly spawned daemon.
pub fn start_poll(checks: u32, reachable: bool) -> (r: StartPoll)
    ensures
        r == start_poll_of(checks, reachable),
{
    if reachable {
        StartPoll::Ready
    } else if checks < START_ATTEMPTS {
        StartPoll::Wait
    } else {
        StartPoll::GiveUp
    }
}

/// The outcome of moving the divider: the restart is attempted whether or not
/// the write succeeded, and a failed write is reported before a failed restart.
pub open spec fn reconfigure_of(written: bool, restarted: Result<(), Error>) -> Result<(), Error> {
    if !written {
        Err(Error::PersistenceWriteFailed)
    } else {
        restarted
    }
}

/// The outcome of moving the divider, from the write's success and the restart's result.
pub fn reconfigure_outcome(written: bool, restarted: Result<(), Error>) -> (r: Result<(), Error>)
    ensures
        r == reconfigure_of(written, restarted),
{
    if !written {
        Err(Error::PersistenceWriteFailed)
    } else {
        restarted
    }
}

} // verus!
