//! A client library for managing a single outbound tunnel connection.
//!
//! The library joins a catalog of locally available endpoint configuration
//! files with a remote load-reporting feed, picks the active endpoint with the
//! lowest reported load, and drives a connect / status / disconnect lifecycle
//! whose sole connectivity signal is a persisted process-identifier marker.
//! All file, network and process I/O lives outside the library; callers hand
//! in the raw values (marker contents, feed body, catalog paths) and carry out
//! the actions the library decides on.

pub mod errors;
pub mod feed;
pub mod marker;
pub mod selector;
pub mod text;
pub mod vpn_man;

pub use errors::VpnError;
pub use selector::LoadReport;
pub use vpn_man::VPNMan;
