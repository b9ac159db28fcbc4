//! What can go wrong with a ping, apart from the socket itself.

use vstd::prelude::*;

verus! {

/// Errors that the ping logic itself reports.
#[derive(Clone, Copy, Debug, PartialEq, Eq, Structural)]
pub enum PingError {
    /// The payload has no room for application data behind the timestamp.
    InvalidSize,
    /// No matching reply arrived in time.
    TimedOut,
}

impl PingError {
    /// What a user is told about this error.
    pub fn message(&self) -> (text: &'static str)
        ensures
            text@ == match self {
                PingError::InvalidSize => "size must be greater than 8 (timestamp bytes)"@,
                PingError::TimedOut => "timed out"@,
            },
    {
        match self {
            PingError::InvalidSize => "size must be greater than 8 (timestamp bytes)",
            PingError::TimedOut => "timed out",
        }
    }
}

} // verus!
