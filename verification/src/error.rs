//! Internal failures: system-level conditions and storage errors. These are
//! reported to connections only as coarse protocol error codes.

use vstd::prelude::*;

verus! {

/// A failure inside the hub's collaborators.
#[derive(Debug)]
pub enum HubError {
    /// A condition described in text: a missing setup step, a missing row,
    /// an unreadable stored value.
    System(String),
    /// An error surfaced by the storage engine.
    Rusql(rusqlite::Error),
}

/// The error type of `rusqlite`, carried through opaquely.
#[verifier::external_type_specification]
#[verifier::external_body]
pub struct ExRusqliteError(rusqlite::Error);

impl From<rusqlite::Error> for HubError {
    fn from(err: rusqlite::Error) -> (r: Self) {
        HubError::Rusql(err)
    }
}

impl vstd::std_specs::convert::FromSpecImpl<rusqlite::Error> for HubError {
    open spec fn obeys_from_spec() -> bool {
        true
    }

    open spec fn from_spec(t: rusqlite::Error) -> Self {
        HubError::Rusql(t)
    }
}

} // verus!
