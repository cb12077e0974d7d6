//! Collisions between bullets, asteroids and the player: where things are
//! stored for lookup, who touches whom, and what each touch does.
use vstd::prelude::*;

pub mod hit_list;
pub mod grid;
pub mod cache;
pub mod detect;
pub mod resolve;
pub mod sweep;

verus! {

/// An entity of the game world, by the bits of its handle.
pub type EntityId = u64;

} // verus!
