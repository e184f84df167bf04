//! Verified core of the recovery-sync relay and its desktop client.
use vstd::prelude::*;

pub mod channel;
pub mod client;
pub mod clock;
pub mod codec;
pub mod credentials;
pub mod crypto;
pub mod evidence;
pub mod laws;
pub mod model;
pub mod relay;
pub mod text;

verus! {

} // verus!
