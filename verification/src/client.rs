//! Connection identities: minted once per accepted connection, never reused.

use vstd::prelude::*;
use crate::player::mint_id;

verus! {

/// The identity of one live transport connection.
#[derive(Clone, Copy, Debug)]
pub struct Client {
    pub id: u128,
}

impl Client {
    /// Mint a fresh connection identity.
    pub fn new() -> (r: Self) {
        Client { id: mint_id() }
    }
}

impl Default for Client {
    /// The zero identity, used only as a placeholder.
    fn default() -> (r: Self)
        ensures
            r.id == 0,
    {
        Client { id: 0 }
    }
}

} // verus!
