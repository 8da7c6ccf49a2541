//! Units and the authoritative world they live in: one ground-truth
//! tile grid plus the set of all live units.

use crate::genome::Hybrid;
use crate::hex::AxialCoordinates;
use crate::map::{spec_in_bounds, MapConfig, TileMap};
use crate::tile::TileType;
use crate::{PlayerKey, UnitId};
use vstd::prelude::*;

verus! {

/// One live unit: owned by exactly one player, positioned on the map,
/// with a hybrid composition that fixes its stats.
#[derive(Clone, Copy, Debug, PartialEq, Eq, Structural)]
pub struct Unit {
    pub id: UnitId,
    pub owner: PlayerKey,
    pub position: AxialCoordinates,
    pub layer: u16,
    pub hybrid_type: Hybrid,
    pub current_health: u16,
    pub stamina_remaining: u16,
}

impl Unit {
    /// A unit stands on the declared map.
    pub open spec fn wf(self, cfg: MapConfig) -> bool {
        spec_in_bounds(cfg, self.position.column_q as int, self.position.row_r as int, self.layer as int)
    }

    /// The movement budget a unit starts each of its turns with: how
    /// far its limbs carry it over their primary terrain.
    pub open spec fn spec_stamina_budget(self) -> u16 {
        self.hybrid_type.spec_limbs().terrain_a.tiles_per_turn as u16
    }

    /// The movement budget a unit starts each of its turns with.
    pub fn stamina_budget(&self) -> (budget: u16)
        ensures
            budget == self.spec_stamina_budget(),
    {
        self.hybrid_type.limbs().terrain_a.tiles_per_turn as u16
    }
}

/// No unit id occurs twice in a unit list.
pub open spec fn spec_unit_ids_unique(units: Seq<Unit>) -> bool {
    forall|i: int, j: int|
        0 <= i < j < units.len() ==> #[trigger] units[i].id != #[trigger] units[j].id
}

/// Every unit in the list stands on the declared map.
pub open spec fn spec_units_wf(units: Seq<Unit>, cfg: MapConfig) -> bool {
    forall|i: int| 0 <= i < units.len() ==> #[trigger] units[i].wf(cfg)
}

/// The authoritative grid never shows fog: fog only exists in replicas.
pub open spec fn spec_no_fog(map: TileMap, cfg: MapConfig) -> bool {
    forall|i: int| 0 <= i < map.tiles@.len() ==> #[trigger] map.tiles@[i].tile_type != TileType::Fog
}

/// The index of the unit with the given id, when one exists.
pub fn find_unit(units: &Vec<Unit>, id: UnitId) -> (found: Option<usize>)
    ensures
        match found {
            Some(i) => i < units@.len() && units@[i as int].id == id,
            None => forall|i: int| 0 <= i < units@.len() ==> #[trigger] units@[i].id != id,
        },
{
    let mut i: usize = 0;
    while i < units.len()
        invariant
            i <= units@.len(),
            forall|j: int| 0 <= j < i ==> #[trigger] units@[j].id != id,
        decreases units@.len() - i,
    {
        if units[i].id == id {
            return Some(i);
        }
        i = i + 1;
    }
    None
}

/// Whether the player owns a unit standing at the given coordinate.
/// Only the axial position counts, not the layer: a flying unit guards
/// the facility below it.
pub fn player_has_unit_at(units: &Vec<Unit>, player: PlayerKey, pos: AxialCoordinates) -> (found:
    bool)
    ensures
        found == exists|i: int|
            0 <= i < units@.len() && #[trigger] units@[i].owner == player && units@[i].position
                == pos,
{
    let mut i: usize = 0;
    while i < units.len()
        invariant
            i <= units@.len(),
            forall|j: int|
                0 <= j < i ==> !(#[trigger] units@[j].owner == player && units@[j].position == pos),
        decreases units@.len() - i,
    {
        if units[i].owner == player && units[i].position == pos {
            return true;
        }
        i = i + 1;
    }
    false
}

} // verus!
