//! Failures of a client invocation and the exit code they map to.

use vstd::prelude::*;

verus! {

/// Why a client invocation failed locally.
#[derive(Clone, Copy, Debug, PartialEq, Eq, Structural)]
pub enum ClientError {
    /// A required path could not be resolved.
    LocatorError,
    /// The daemon process could not be launched.
    SpawnError,
    /// The endpoint stayed unreachable after the single retry.
    ConnectError,
    /// The response stream closed without a termination frame.
    ProtocolError,
}

/// The exit code of every local failure.
pub const LOCAL_FAILURE: i32 = -1;

impl ClientError {
    /// Every local failure maps to the same exit code.
    pub open spec fn code(self) -> int {
        -1
    }

    /// The process exit code for this failure.
    pub fn exit_code(&self) -> (code: i32)
        ensures
            code == self.code(),
            code == LOCAL_FAILURE,
    {
        LOCAL_FAILURE
    }
}

/// How an invocation ends: with the daemon's exit status, or with a local failure.
#[derive(Clone, Copy, Debug, PartialEq, Eq, Structural)]
pub enum Verdict {
    /// The status carried by the termination frame, passed through verbatim.
    Status(i32),
    /// A local failure.
    Failure(ClientError),
}

impl Verdict {
    /// The exit code that the verdict stands for.
    pub open spec fn code(self) -> int {
        match self {
            Verdict::Status(status) => status as int,
            Verdict::Failure(error) => error.code(),
        }
    }

    /// The process exit code: the daemon's status unchanged, or `-1` for a local failure.
    pub fn exit_code(&self) -> (code: i32)
        ensures
            code == self.code(),
    {
        match self {
            Verdict::Status(status) => *status,
            Verdict::Failure(error) => error.exit_code(),
        }
    }
}

} // verus!
