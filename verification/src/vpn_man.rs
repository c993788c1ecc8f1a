//! The connection lifecycle manager.
//!
//! The manager owns the process marker: its presence with parseable contents
//! is the sole signal of the Connected state (no liveness or identity check
//! is made against the recorded process — a stale or reused identifier
//! reports falsely Connected; this is a documented limitation, not recovered
//! here). The manager itself performs no I/O: the caller reads the marker
//! file and hands its contents in, asks for the decision, carries out the
//! spawn or termination, and persists or deletes the marker as decided.

use vstd::prelude::*;
use crate::marker::{dec_of, marker_contents, parse_pid, pid_of, lemma_pid_roundtrip};
use crate::selector::{select_best_endpoint, spec_best, LoadReport};

verus! {

/// The two lifecycle states; the marker alone tells them apart.
#[derive(Clone, Copy, Debug, PartialEq, Eq, Structural)]
pub enum ConnStatus {
    /// A marker with a parseable process identifier is present.
    Connected,
    /// No marker is present, or its contents parse to no identifier.
    Disconnected,
}

/// What a connect request decides.
#[derive(Clone, Copy, Debug, PartialEq, Eq, Structural)]
pub enum ConnectAction {
    /// Spawn the tunnel process and persist a marker for it.
    Spawn,
    /// A connection is already active: a benign no-op to warn about.
    AlreadyConnected,
}

/// What a disconnect request decides.
#[derive(Clone, Copy, Debug, PartialEq, Eq, Structural)]
pub enum DisconnectAction {
    /// Request termination of the recorded process, then delete the marker.
    Terminate(u32),
    /// No connection is active: a benign no-op to warn about.
    NotConnected,
}

/// The marker file's contents, if the file exists.
pub open spec fn opt_bytes(m: Option<Vec<u8>>) -> Option<Seq<u8>> {
    match m {
        Option::Some(c) => Some(c@),
        Option::None => None,
    }
}

/// Connected means: a marker is present and records an identifier.
pub open spec fn spec_connected(marker: Option<Seq<u8>>) -> bool {
    marker matches Some(c) && pid_of(c) is Some
}

/// The status that the given marker contents signal.
pub open spec fn spec_status(marker: Option<Seq<u8>>) -> ConnStatus {
    if spec_connected(marker) {
        ConnStatus::Connected
    } else {
        ConnStatus::Disconnected
    }
}

/// The decision a connect request takes on the given marker contents.
pub open spec fn spec_connect_action(marker: Option<Seq<u8>>) -> ConnectAction {
    if spec_connected(marker) {
        ConnectAction::AlreadyConnected
    } else {
        ConnectAction::Spawn
    }
}

/// The decision a disconnect request takes on the given marker contents.
pub open spec fn spec_disconnect_action(marker: Option<Seq<u8>>) -> DisconnectAction {
    match marker {
        Option::Some(c) => match pid_of(c) {
            Option::Some(p) => DisconnectAction::Terminate(p),
            Option::None => DisconnectAction::NotConnected,
        },
        Option::None => DisconnectAction::NotConnected,
    }
}

/// The manager's configuration: where the endpoint configurations, the
/// credentials file and the process marker live. The paths are opaque to the
/// manager; the caller resolves them against the filesystem.
pub struct VPNMan {
    /// The glob pattern locating endpoint configuration files.
    pub ovpn_dir: String,
    /// The credentials file handed to the tunnel process.
    pub auth_file: String,
    /// The marker file recording the spawned process's identifier.
    pub pid_file: String,
}

impl VPNMan {
    /// A manager over the given catalog pattern, credentials path and marker
    /// path.
    pub fn new(ovpn_dir: String, auth_file: String, pid_file: String) -> (r: Self)
        ensures
            r.ovpn_dir@ == ovpn_dir@,
            r.auth_file@ == auth_file@,
            r.pid_file@ == pid_file@,
    {
        VPNMan { ovpn_dir, auth_file, pid_file }
    }

    /// Is a connection active, going by the marker contents alone?
    pub fn is_connected(&self, marker: &Option<Vec<u8>>) -> (r: bool)
        ensures
            r == spec_connected(opt_bytes(*marker)),
    {
        match marker {
            Option::Some(c) => parse_pid(c).is_some(),
            Option::None => false,
        }
    }

    /// The status the given marker contents signal: Connected exactly when a
    /// marker is present and parses to a process identifier.
    pub fn check_status(&self, marker: &Option<Vec<u8>>) -> (r: ConnStatus)
        ensures
            r == spec_status(opt_bytes(*marker)),
            r == ConnStatus::Connected <==> spec_connected(opt_bytes(*marker)),
    {
        if self.is_connected(marker) {
            ConnStatus::Connected
        } else {
            ConnStatus::Disconnected
        }
    }

    /// Decide a connect request: spawn only from Disconnected; while a
    /// connection is active the request is a benign no-op.
    pub fn connect_request(&self, marker: &Option<Vec<u8>>) -> (r: ConnectAction)
        ensures
            r == spec_connect_action(opt_bytes(*marker)),
            r == ConnectAction::Spawn <==> !spec_connected(opt_bytes(*marker)),
    {
        if self.is_connected(marker) {
            ConnectAction::AlreadyConnected
        } else {
            ConnectAction::Spawn
        }
    }

    /// Decide a disconnect request: terminate the recorded process only when
    /// the marker records one; with the marker absent or unparseable the
    /// request is a benign no-op and no termination is attempted.
    pub fn disconnect_request(&self, marker: &Option<Vec<u8>>) -> (r: DisconnectAction)
        ensures
            r == spec_disconnect_action(opt_bytes(*marker)),
            marker is None ==> r == DisconnectAction::NotConnected,
            r matches DisconnectAction::Terminate(p) ==> (opt_bytes(*marker) matches Some(c)
                && pid_of(c) == Some(
                p,
            )),
    {
        match marker {
            Option::Some(c) => match parse_pid(c) {
                Option::Some(p) => DisconnectAction::Terminate(p),
                Option::None => DisconnectAction::NotConnected,
            },
            Option::None => DisconnectAction::NotConnected,
        }
    }

    /// The marker contents to persist after a successful spawn: the decimal
    /// form of the new process's identifier.
    pub fn marker_for_pid(&self, pid: u32) -> (r: Vec<u8>)
        ensures
            r@ == dec_of(pid as nat),
            pid_of(r@) == Some(pid),
    {
        marker_contents(pid)
    }

    /// The catalog path of the active, catalog-matched report with the lowest
    /// load, or nothing when no active report matches any catalog entry.
    pub fn get_lowest_load_server(&self, catalog: &Vec<Vec<u8>>, reports: &Vec<LoadReport>) -> (r:
        Option<Vec<u8>>)
        ensures
            spec_best(catalog@, reports@) matches Some(b) ==> (r matches Some(p) && 0 <= b.1
                < catalog@.len() && p@ == catalog@[b.1]@),
            spec_best(catalog@, reports@) is None ==> r is None,
    {
        select_best_endpoint(catalog, reports)
    }
}

/// A second connect without an intervening disconnect spawns nothing: the
/// marker persisted by the first connect parses back to an identifier, so the
/// request decides on the benign no-op.
pub proof fn lemma_second_connect_is_noop(pid: u32)
    ensures
        spec_connect_action(Some(dec_of(pid as nat))) == ConnectAction::AlreadyConnected,
{
    lemma_pid_roundtrip(pid);
}

/// With no marker present, a disconnect request attempts no termination.
pub proof fn lemma_disconnect_without_marker_is_noop()
    ensures
        spec_disconnect_action(None) == DisconnectAction::NotConnected,
{
}

/// The lifecycle round trip: after a successful connect the persisted marker
/// signals Connected; the following disconnect terminates exactly the
/// recorded process; and with the marker then deleted, the status is
/// Disconnected again.
pub proof fn lemma_connect_disconnect_roundtrip(pid: u32)
    ensures
        spec_status(Some(dec_of(pid as nat))) == ConnStatus::Connected,
        spec_disconnect_action(Some(dec_of(pid as nat))) == DisconnectAction::Terminate(pid),
        spec_status(None) == ConnStatus::Disconnected,
{
    lemma_pid_roundtrip(pid);
}

} // verus!
