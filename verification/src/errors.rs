//! The error taxonomy of the library.
//!
//! Every failure a command can run into is one of these variants; all of them
//! are fatal to the invoking command (no retry, no partial success). The
//! library's own logic only ever produces `ParseFailed`; the remaining
//! variants classify I/O failures that the caller runs into while carrying
//! out the actions the library decides on.

use vstd::prelude::*;

verus! {

/// One failure class per stage of a command.
#[derive(Clone, Copy, Debug, PartialEq, Eq, Structural)]
pub enum VpnError {
    /// The endpoint catalog could not be read.
    DiscoveryFailed,
    /// The load feed could not be fetched.
    NetworkFailed,
    /// The load feed body was malformed or of an unexpected shape.
    ParseFailed,
    /// The external tunnel process could not be launched.
    SpawnFailed,
    /// The process marker could not be read, written or deleted.
    MarkerIoFailed,
    /// The termination request against the recorded process failed.
    TerminationFailed,
}

/// The user-facing description of each error variant.
pub open spec fn spec_message(e: VpnError) -> Seq<char> {
    match e {
        VpnError::DiscoveryFailed => "endpoint discovery failed"@,
        VpnError::NetworkFailed => "load feed fetch failed"@,
        VpnError::ParseFailed => "load feed body was malformed"@,
        VpnError::SpawnFailed => "tunnel process launch failed"@,
        VpnError::MarkerIoFailed => "process marker access failed"@,
        VpnError::TerminationFailed => "termination request failed"@,
    }
}

impl VpnError {
    /// A short description naming the stage that failed.
    pub fn message(&self) -> (r: &'static str)
        ensures
            r@ == spec_message(*self),
    {
        match self {
            VpnError::DiscoveryFailed => "endpoint discovery failed",
            VpnError::NetworkFailed => "load feed fetch failed",
            VpnError::ParseFailed => "load feed body was malformed",
            VpnError::SpawnFailed => "tunnel process launch failed",
            VpnError::MarkerIoFailed => "process marker access failed",
            VpnError::TerminationFailed => "termination request failed",
        }
    }
}

} // verus!
