//! The errors that reach a user of the control client.

use vstd::prelude::*;

verus! {

/// Why an operation of the client failed.
#[derive(Clone, Copy, Debug, PartialEq, Eq, Structural)]
pub enum Error {
    /// The control socket cannot be reached: the daemon is not running.
    ChannelUnavailable,
    /// The request could not be sent, or no reply came in time.
    ProtocolTimeout,
    /// No target item matched, or none of the matched items has a saved position.
    ResolutionFailed,
    /// The preference store refused the new divider position.
    PersistenceWriteFailed,
    /// The daemon did not answer within the start-up window.
    StartupTimeout,
}

impl Error {
    /// The one-line message shown to the user for each error.
    pub open spec fn message_of(self) -> Seq<char> {
        match self {
            Error::ChannelUnavailable => "daemon not running (use 'nanobar start' first)"@,
            Error::ProtocolTimeout => "no reply from daemon"@,
            Error::ResolutionFailed => "could not determine divider position for specified apps"@,
            Error::PersistenceWriteFailed => "failed to write position to defaults"@,
            Error::StartupTimeout => "daemon failed to start within 5 seconds"@,
        }
    }

    /// The one-line message shown to the user.
    pub fn message(self) -> (r: &'static str)
        ensures
            r@ == self.message_of(),
    {
        match self {
            Error::ChannelUnavailable => "daemon not running (use 'nanobar start' first)",
            Error::ProtocolTimeout => "no reply from daemon",
            Error::ResolutionFailed => "could not determine divider position for specified apps",
            Error::PersistenceWriteFailed => "failed to write position to defaults",
            Error::StartupTimeout => "daemon failed to start within 5 seconds",
        }
    }
}

} // verus!
