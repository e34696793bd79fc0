pub mod bridge;
pub mod client;
pub mod codec;
pub mod database;
pub mod error;
pub mod hub;
pub mod laws;
pub mod player;
pub mod proto;
pub mod registry;
pub mod validate;

use vstd::prelude::*;

verus! {

} // verus!
