//! The visibility engine: which hexes a player currently observes.
//! Recomputed in full every tick — unit counts and maps are small, and
//! correctness beats micro-optimisation at this scale.

use crate::hex::{hex_disk_contains, in_hex_disk, AxialCoordinates};
use crate::map::MapConfig;
use crate::world::Unit;
use crate::PlayerKey;
use vstd::prelude::*;

verus! {

/// Unit `u` sees `(q, r)`: the coordinate lies within the hex disk of
/// the unit's viewing distance around its position.
pub open spec fn spec_unit_sees(u: Unit, q: int, r: int) -> bool {
    in_hex_disk(u.position, q, r, u.hybrid_type.spec_head().viewing_distance as int)
}

/// A player sees `(q, r)`: it is on the map and inside the viewing
/// disk of at least one of the player's units. The visible set is
/// exactly the union of the per-unit hex disks, clipped to the map.
pub open spec fn spec_visible(units: Seq<Unit>, player: PlayerKey, cfg: MapConfig, q: int, r: int) -> bool {
    &&& 0 <= q < cfg.size_width
    &&& 0 <= r < cfg.size_height
    &&& exists|i: int|
        0 <= i < units.len() && #[trigger] units[i].owner == player && spec_unit_sees(
            units[i],
            q,
            r,
        )
}

/// The visible set is exactly the union, over the player's units, of
/// the closed hex disks of radius `viewing_distance`, intersected with
/// the map bounds.
pub proof fn lemma_visible_is_union_of_disks(
    units: Seq<Unit>,
    player: PlayerKey,
    cfg: MapConfig,
    q: int,
    r: int,
)
    ensures
        spec_visible(units, player, cfg, q, r) <==> ((0 <= q < cfg.size_width && 0 <= r
            < cfg.size_height) && exists|i: int|
            0 <= i < units.len() && #[trigger] units[i].owner == player && in_hex_disk(
                units[i].position,
                q,
                r,
                units[i].hybrid_type.spec_head().viewing_distance as int,
            )),
{
}

/// Whether the player currently observes the coordinate `(q, r)`.
pub fn is_visible(units: &Vec<Unit>, player: PlayerKey, cfg: &MapConfig, q: u16, r: u16) -> (seen:
    bool)
    ensures
        seen == spec_visible(units@, player, *cfg, q as int, r as int),
{
    if !(q < cfg.size_width && r < cfg.size_height) {
        return false;
    }
    let mut i: usize = 0;
    while i < units.len()
        invariant
            i <= units@.len(),
            q < cfg.size_width,
            r < cfg.size_height,
            forall|j: int|
                0 <= j < i ==> !(#[trigger] units@[j].owner == player && spec_unit_sees(
                    units@[j],
                    q as int,
                    r as int,
                )),
        decreases units@.len() - i,
    {
        let u = &units[i];
        if u.owner == player {
            let vd = u.hybrid_type.head().viewing_distance;
            if hex_disk_contains(u.position, q, r, vd) {
                proof {
                    assert(units@[i as int].owner == player && spec_unit_sees(
                        units@[i as int],
                        q as int,
                        r as int,
                    ));
                }
                return true;
            }
        }
        i = i + 1;
    }
    false
}

} // verus!
