//! Core model of a turn-based hex-grid strategy game: axial coordinate
//! math, the authoritative tile/unit world, per-player fog-of-war
//! replicas, and the turn/command validator that drives them.

pub mod assoc;
pub mod genome;
pub mod hex;
pub mod lobby;
pub mod map;
pub mod protocol;
pub mod replica;
pub mod tile;
pub mod turn;
pub mod visibility;
pub mod world;

use vstd::prelude::*;

verus! {

/// Identifies one connected player: the server-side user key.
pub type PlayerKey = u64;

/// Identifies one live unit.
pub type UnitId = u64;

} // verus!
