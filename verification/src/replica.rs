//! Per-player replicas: each connected player's subjective copy of the
//! map, reconciled against the authoritative world every tick, and the
//! privacy boundary deciding which units a player may hear about.

use crate::map::{spec_in_bounds, MapConfig, TileMap};
use crate::tile::{spec_fog_tile, Tile, TileType};
use crate::visibility::{is_visible, spec_visible};
use crate::world::Unit;
use crate::PlayerKey;
use vstd::prelude::*;

verus! {

/// One player's subjective copy of the map.
#[derive(Clone, Debug, PartialEq, Eq)]
pub struct PlayerReplica {
    pub key: PlayerKey,
    pub map: TileMap,
}

/// What one replica cell holds after reconciliation: the authoritative
/// tile where observed; fog where not, except that an already-fogged
/// cell is left untouched.
pub open spec fn spec_reconciled_tile(auth: Tile, old_tile: Tile, seen: bool) -> Tile {
    if seen {
        auth
    } else if old_tile.tile_type == TileType::Fog {
        old_tile
    } else {
        spec_fog_tile()
    }
}

/// A cell the player does not observe is fog after reconciliation, no
/// matter what it held before: unobserved authoritative state never
/// reaches a replica.
pub proof fn lemma_unseen_is_fog(auth: Tile, old_tile: Tile)
    ensures
        spec_reconciled_tile(auth, old_tile, false).tile_type == TileType::Fog,
        spec_reconciled_tile(auth, old_tile, false).structure == spec_fog_tile().structure
            || spec_reconciled_tile(auth, old_tile, false) == old_tile,
{
}

/// While a cell stays observed it tracks the authoritative value, and —
/// since the authoritative map never holds fog — never reverts to fog.
/// Observation is what keeps a revealed cell revealed: on contact loss
/// the cell decays back to fog.
pub proof fn lemma_seen_tracks_authority(auth: Tile, old_tile: Tile)
    requires
        auth.tile_type != TileType::Fog,
    ensures
        spec_reconciled_tile(auth, old_tile, true) == auth,
        spec_reconciled_tile(auth, old_tile, true).tile_type != TileType::Fog,
{
}

/// Reconcile one player's replica against the authoritative map: every
/// cell the player observes is copied verbatim; every other cell decays
/// to fog (structure cleared), already-fogged cells staying untouched.
pub fn reconcile_replica(
    replica: &mut TileMap,
    cfg: &MapConfig,
    auth: &TileMap,
    units: &Vec<Unit>,
    player: PlayerKey,
)
    requires
        old(replica).wf(*cfg),
        auth.wf(*cfg),
        cfg.wf(),
    ensures
        final(replica).wf(*cfg),
        forall|q: int, r: int, z: int|
            spec_in_bounds(*cfg, q, r, z) ==> #[trigger] final(replica).spec_tile(*cfg, q, r, z)
                == spec_reconciled_tile(
                auth.spec_tile(*cfg, q, r, z),
                old(replica).spec_tile(*cfg, q, r, z),
                spec_visible(units@, player, *cfg, q, r),
            ),
{
    let total = replica.tiles.len();
    let ghost old_map = *replica;
    let mut idx: usize = 0;
    while idx < total
        invariant
            idx <= total,
            total == cfg.spec_tile_count(),
            cfg.wf(),
            auth.wf(*cfg),
            old_map.wf(*cfg),
            replica.tiles@.len() == total,
            forall|j: int|
                idx <= j < total ==> #[trigger] replica.tiles@[j] == old_map.tiles@[j],
            forall|j: int|
                0 <= j < idx ==> #[trigger] replica.tiles@[j] == spec_reconciled_tile(
                    auth.tiles@[j],
                    old_map.tiles@[j],
                    spec_visible(
                        units@,
                        player,
                        *cfg,
                        crate::map::spec_index_q(cfg.size_width as int, cfg.size_height as int, j),
                        crate::map::spec_index_r(cfg.size_width as int, cfg.size_height as int, j),
                    ),
                ),
        decreases total - idx,
    {
        let (q, r, z) = crate::map::index_to_tile_qrz(cfg, idx);
        let seen = is_visible(units, player, cfg, q, r);
        if seen {
            let auth_tile = auth.tiles[idx];
            replica.tiles.set(idx, auth_tile);
        } else {
            let current = replica.tiles[idx];
            if current.tile_type != TileType::Fog {
                replica.tiles.set(idx, Tile::fog());
            }
        }
        idx = idx + 1;
    }
    proof {
        let wi = cfg.size_width as int;
        let hi = cfg.size_height as int;
        assert forall|q: int, r: int, z: int| spec_in_bounds(*cfg, q, r, z) implies #[trigger] replica
            .spec_tile(*cfg, q, r, z) == spec_reconciled_tile(
            auth.spec_tile(*cfg, q, r, z),
            old_map.spec_tile(*cfg, q, r, z),
            spec_visible(units@, player, *cfg, q, r),
        ) by {
            crate::map::lemma_tile_index_bounds(wi, hi, q, r, z);
            crate::map::lemma_tile_index_round_trip(wi, hi, q, r, z);
        }
    }
}

/// A unit belongs in the player's replication scope: it is the
/// player's own, or it stands on a cell the player's replica currently
/// shows un-fogged. This is the privacy boundary — a player never
/// hears about units standing in their fog.
pub open spec fn spec_in_scope(u: Unit, replica: TileMap, cfg: MapConfig, player: PlayerKey) -> bool {
    u.owner == player || replica.spec_tile(
        cfg,
        u.position.column_q as int,
        u.position.row_r as int,
        0,
    ).tile_type != TileType::Fog
}

/// Whether one unit may be replicated to the player.
pub fn unit_in_scope(u: &Unit, replica: &TileMap, cfg: &MapConfig, player: PlayerKey) -> (in_scope:
    bool)
    requires
        replica.wf(*cfg),
        spec_in_bounds(*cfg, u.position.column_q as int, u.position.row_r as int, 0),
    ensures
        in_scope == spec_in_scope(*u, *replica, *cfg, player),
{
    if u.owner == player {
        return true;
    }
    let tile = replica.get(cfg, u.position.column_q, u.position.row_r, 0);
    tile.tile_type != TileType::Fog
}

} // verus!
