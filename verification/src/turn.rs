//! The turn and command validator: the fixed player rotation, movement
//! legality checking, build progress, and the single in-flight move
//! that serialises all movement.

use crate::genome::{build_turns, spec_build_turns, AnimalKind, Hybrid, LimbStats};
use crate::hex::{hex_line, spec_hex_line, AxialCoordinates};
use crate::map::{spec_in_bounds, spec_index_q, spec_index_r, spec_index_z, spec_tile_index, MapConfig, TileMap};
use crate::protocol::{GenomeStatusChange, LockedStatus, PlayerInputVariant};
use crate::replica::PlayerReplica;
use crate::tile::{spec_terrain_category, ConstructionStatus, Tile, TileStructure, TurnMarker};
use crate::world::{find_unit, player_has_unit_at, spec_unit_ids_unique, spec_units_wf, Unit};
use crate::{PlayerKey, UnitId};
use vstd::prelude::*;

verus! {

/// The fixed rotation of players and the current turn. The rotation is
/// set once at match start; the turn number grows by one each time the
/// rotation wraps back to the first player.
#[derive(Clone, Debug)]
pub struct TurnTracker {
    players: Vec<PlayerKey>,
    current: usize,
    turn_number: u16,
}

impl TurnTracker {
    /// The tracker points inside a non-empty rotation.
    pub open spec fn wf(self) -> bool {
        self.spec_players().len() > 0 && 0 <= self.spec_current() < self.spec_players().len()
    }

    /// The fixed rotation.
    pub closed spec fn spec_players(self) -> Seq<PlayerKey> {
        self.players@
    }

    /// The index of the current player in the rotation.
    pub closed spec fn spec_current(self) -> int {
        self.current as int
    }

    /// The player whose turn it is.
    pub open spec fn spec_player(self) -> PlayerKey {
        self.spec_players()[self.spec_current()]
    }

    /// The current turn number.
    pub closed spec fn spec_turn_number(self) -> u16 {
        self.turn_number
    }

    /// Start the rotation: the first connected player opens turn one.
    pub fn new(players: Vec<PlayerKey>) -> (tracker: TurnTracker)
        requires
            players@.len() > 0,
        ensures
            tracker.wf(),
            tracker.spec_players() == players@,
            tracker.spec_current() == 0,
            tracker.spec_player() == players@[0],
            tracker.spec_turn_number() == 1,
    {
        TurnTracker { players, current: 0, turn_number: 1 }
    }

    /// The player whose turn it is.
    pub fn player(&self) -> (player: PlayerKey)
        requires
            self.wf(),
        ensures
            player == self.spec_player(),
    {
        self.players[self.current]
    }

    /// The current turn number.
    pub fn turn_number(&self) -> (n: u16)
        ensures
            n == self.spec_turn_number(),
    {
        self.turn_number
    }

    /// How many players are in the rotation.
    pub fn player_count(&self) -> (n: usize)
        ensures
            n == self.spec_players().len(),
    {
        self.players.len()
    }

    /// Hand the turn to the next player in the rotation; the turn
    /// number grows by one each time the rotation wraps (it stops
    /// counting if a match somehow reaches the largest turn number).
    pub fn advance(&mut self)
        requires
            old(self).wf(),
        ensures
            final(self).wf(),
            final(self).spec_players() == old(self).spec_players(),
            final(self).spec_current() == (old(self).spec_current() + 1) % (
            old(self).spec_players().len() as int),
            final(self).spec_turn_number() == if final(self).spec_current() == 0 {
                if old(self).spec_turn_number() < u16::MAX {
                    (old(self).spec_turn_number() + 1) as u16
                } else {
                    u16::MAX
                }
            } else {
                old(self).spec_turn_number()
            },
    {
        let len = self.players.len();
        self.current = self.current + 1;
        if self.current == len {
            self.current = 0;
        }
        proof {
            if old(self).current + 1 < len {
                vstd::arithmetic::div_mod::lemma_small_mod(
                    (old(self).current + 1) as nat,
                    len as nat,
                );
            } else {
                vstd::arithmetic::div_mod::lemma_mod_self_0(len as int);
            }
        }
        if self.current == 0 {
            if self.turn_number < u16::MAX {
                self.turn_number = self.turn_number + 1;
            }
        }
    }
}

/// The single in-flight unit move: the unit and the waypoints it still
/// has to walk, front first, one per simulation tick.
#[derive(Clone, Debug)]
pub struct PendingMove {
    pub unit: UnitId,
    pub path: Vec<AxialCoordinates>,
}

/// Why a movement request was rejected. All of these are recoverable:
/// the command is dropped and nothing changes.
#[derive(Clone, Copy, Debug, PartialEq, Eq, Structural)]
pub enum MoveError {
    /// The referenced unit does not exist.
    UnknownUnit,
    /// The referenced unit belongs to someone else.
    NotYourUnit,
    /// The target coordinate is off the map.
    DestinationOutOfBounds,
    /// The unit already stands on the target.
    NoMovement,
    /// Fog, impassable terrain or missing stamina along the path.
    Blocked,
}

/// One path tile can be crossed: it is on the ground layer of the map,
/// its terrain is known (not fog), and the unit's limbs are suited to
/// its terrain category.
pub open spec fn spec_step_tile_ok(
    map: TileMap,
    cfg: MapConfig,
    limbs: LimbStats,
    c: AxialCoordinates,
) -> bool {
    &&& spec_in_bounds(cfg, c.column_q as int, c.row_r as int, 0)
    &&& match spec_terrain_category(
        map.spec_tile(cfg, c.column_q as int, c.row_r as int, 0).tile_type,
    ) {
        Some(t) => limbs.spec_can_traverse(t),
        None => false,
    }
}

/// A whole path is legal: every tile after the starting one can be
/// crossed, and the unit has one stamina for each of those tiles.
/// Validation is all-or-nothing; there is no partial credit.
pub open spec fn spec_path_ok(
    map: TileMap,
    cfg: MapConfig,
    limbs: LimbStats,
    stamina: int,
    path: Seq<AxialCoordinates>,
) -> bool {
    &&& forall|i: int| 1 <= i < path.len() ==> spec_step_tile_ok(map, cfg, limbs, #[trigger] path[i])
    &&& stamina >= path.len() - 1
}

/// Validate a movement request against the mover's own view of the
/// world, so that fog blocks planning. Returns the full hex line the
/// unit would walk (starting at its current tile), or the first reason
/// the request is rejected: unknown unit, foreign unit, target off the
/// map, no distance to cover, or an illegal path.
pub fn validate_move(
    units: &Vec<Unit>,
    view: &TileMap,
    cfg: &MapConfig,
    player: PlayerKey,
    unit_id: UnitId,
    target: AxialCoordinates,
) -> (res: Result<Vec<AxialCoordinates>, MoveError>)
    requires
        view.wf(*cfg),
        cfg.wf(),
        spec_unit_ids_unique(units@),
    ensures
        match res {
            Ok(path) => exists|i: int|
                {
                    &&& 0 <= i < units@.len()
                    &&& (#[trigger] units@[i]).id == unit_id
                    &&& units@[i].owner == player
                    &&& target.column_q < cfg.size_width && target.row_r < cfg.size_height
                    &&& units@[i].position != target
                    &&& path@ == spec_hex_line(units@[i].position, target)
                    &&& spec_path_ok(
                        *view,
                        *cfg,
                        units@[i].hybrid_type.spec_limbs(),
                        units@[i].stamina_remaining as int,
                        path@,
                    )
                },
            Err(MoveError::UnknownUnit) => forall|i: int|
                0 <= i < units@.len() ==> (#[trigger] units@[i]).id != unit_id,
            Err(MoveError::NotYourUnit) => exists|i: int|
                0 <= i < units@.len() && (#[trigger] units@[i]).id == unit_id && units@[i].owner
                    != player,
            Err(MoveError::DestinationOutOfBounds) => exists|i: int|
                {
                    &&& 0 <= i < units@.len()
                    &&& (#[trigger] units@[i]).id == unit_id
                    &&& units@[i].owner == player
                    &&& !(target.column_q < cfg.size_width && target.row_r < cfg.size_height)
                },
            Err(MoveError::NoMovement) => exists|i: int|
                {
                    &&& 0 <= i < units@.len()
                    &&& (#[trigger] units@[i]).id == unit_id
                    &&& units@[i].owner == player
                    &&& units@[i].position == target
                },
            Err(MoveError::Blocked) => exists|i: int|
                {
                    &&& 0 <= i < units@.len()
                    &&& (#[trigger] units@[i]).id == unit_id
                    &&& units@[i].owner == player
                    &&& target.column_q < cfg.size_width && target.row_r < cfg.size_height
                    &&& units@[i].position != target
                    &&& !spec_path_ok(
                        *view,
                        *cfg,
                        units@[i].hybrid_type.spec_limbs(),
                        units@[i].stamina_remaining as int,
                        spec_hex_line(units@[i].position, target),
                    )
                },
        },
{
    let idx = match find_unit(units, unit_id) {
        Some(i) => i,
        None => {
            return Err(MoveError::UnknownUnit);
        },
    };
    let unit = units[idx];
    if unit.owner != player {
        return Err(MoveError::NotYourUnit);
    }
    if !(target.column_q < cfg.size_width && target.row_r < cfg.size_height) {
        return Err(MoveError::DestinationOutOfBounds);
    }
    if unit.position.column_q == target.column_q && unit.position.row_r == target.row_r {
        return Err(MoveError::NoMovement);
    }
    let path = hex_line(unit.position, target);
    let limbs = unit.hybrid_type.limbs();
    let mut stamina = unit.stamina_remaining;
    let mut k: usize = 1;
    let ghost gpath = path@;
    while k < path.len()
        invariant
            1 <= k <= gpath.len(),
            path@ == gpath,
            view.wf(*cfg),
            cfg.wf(),
            idx < units@.len(),
            units@[idx as int].id == unit_id,
            unit == units@[idx as int],
            unit.owner == player,
            target.column_q < cfg.size_width && target.row_r < cfg.size_height,
            unit.position != target,
            gpath == spec_hex_line(unit.position, target),
            limbs == unit.hybrid_type.spec_limbs(),
            stamina as int == unit.stamina_remaining - (k - 1),
            stamina >= 0,
            forall|i: int| 1 <= i < k ==> spec_step_tile_ok(*view, *cfg, limbs, #[trigger] gpath[i]),
        decreases gpath.len() - k,
    {
        let c = path[k];
        if !(c.column_q < cfg.size_width && c.row_r < cfg.size_height) {
            proof {
                assert(!spec_step_tile_ok(*view, *cfg, limbs, gpath[k as int]));
                assert((#[trigger] units@[idx as int]).id == unit_id);
            }
            return Err(MoveError::Blocked);
        }
        let tile = view.get(cfg, c.column_q, c.row_r, 0);
        let passable = match tile.tile_type.terrain_category() {
            Some(t) => limbs.can_traverse(t),
            None => false,
        };
        if !passable {
            proof {
                assert(!spec_step_tile_ok(*view, *cfg, limbs, gpath[k as int]));
                assert((#[trigger] units@[idx as int]).id == unit_id);
            }
            return Err(MoveError::Blocked);
        }
        if stamina == 0 {
            proof {
                assert(!spec_path_ok(
                    *view,
                    *cfg,
                    limbs,
                    unit.stamina_remaining as int,
                    gpath,
                ));
                assert((#[trigger] units@[idx as int]).id == unit_id);
            }
            return Err(MoveError::Blocked);
        }
        stamina = stamina - 1;
        k = k + 1;
    }
    Ok(path)
}

/// The genomes one player has unlocked by standing on facilities.
#[derive(Clone, Debug)]
pub struct PlayerGenomes {
    pub key: PlayerKey,
    pub genomes: Vec<AnimalKind>,
}

/// The genome guarded by a facility on this tile, if any.
pub open spec fn spec_facility_genome(t: Tile) -> Option<AnimalKind> {
    match t.structure {
        TileStructure::GenomeFacility { unique_genome, .. } => Some(unique_genome),
        _ => None,
    }
}

/// There is an entry for `key` in the replica list.
pub open spec fn spec_has_replica(replicas: Seq<PlayerReplica>, key: PlayerKey) -> bool {
    exists|i: int| 0 <= i < replicas.len() && (#[trigger] replicas[i]).key == key
}

/// There is an entry for `key` in the genome list.
pub open spec fn spec_has_genomes(genomes: Seq<PlayerGenomes>, key: PlayerKey) -> bool {
    exists|i: int| 0 <= i < genomes.len() && (#[trigger] genomes[i]).key == key
}

/// The whole authoritative match state the simulation loop owns.
pub struct MatchState {
    pub config: MapConfig,
    pub auth_map: TileMap,
    pub units: Vec<Unit>,
    pub next_unit_id: UnitId,
    pub turn_tracker: TurnTracker,
    pub pending_move: Option<PendingMove>,
    pub replicas: Vec<PlayerReplica>,
    pub genomes: Vec<PlayerGenomes>,
}

impl MatchState {
    /// Everything hangs together: the grids match the configuration,
    /// the authoritative map shows no fog, units stand on the map with
    /// distinct ids below the id counter, and every player in the
    /// rotation has a replica and a genome entry.
    pub open spec fn wf(self) -> bool {
        &&& self.config.wf()
        &&& self.config.spec_tile_count() <= usize::MAX
        &&& self.auth_map.wf(self.config)
        &&& crate::world::spec_no_fog(self.auth_map, self.config)
        &&& spec_units_wf(self.units@, self.config)
        &&& spec_unit_ids_unique(self.units@)
        &&& forall|i: int|
            0 <= i < self.units@.len() ==> (#[trigger] self.units@[i]).id < self.next_unit_id
        &&& self.turn_tracker.wf()
        &&& forall|i: int|
            0 <= i < self.replicas@.len() ==> (#[trigger] self.replicas@[i]).map.wf(self.config)
        &&& forall|p: int|
            0 <= p < self.turn_tracker.spec_players().len() ==> spec_has_replica(
                self.replicas@,
                #[trigger] self.turn_tracker.spec_players()[p],
            ) && spec_has_genomes(self.genomes@, self.turn_tracker.spec_players()[p])
        &&& forall|i: int, j: int|
            0 <= i < j < self.replicas@.len() ==> (#[trigger] self.replicas@[i]).key != (
            #[trigger] self.replicas@[j]).key
        &&& forall|i: int, j: int|
            0 <= i < j < self.genomes@.len() ==> (#[trigger] self.genomes@[i]).key != (
            #[trigger] self.genomes@[j]).key
        &&& match self.pending_move {
            Some(pm) => forall|i: int|
                0 <= i < pm.path@.len() ==> (#[trigger] pm.path@[i]).column_q < self.config.size_width
                    && pm.path@[i].row_r < self.config.size_height,
            None => true,
        }
    }
}

/// The index of the replica entry for `key`, when one exists.
fn find_replica(replicas: &Vec<PlayerReplica>, key: PlayerKey) -> (found: Option<usize>)
    ensures
        match found {
            Some(i) => i < replicas@.len() && replicas@[i as int].key == key,
            None => !spec_has_replica(replicas@, key),
        },
{
    let mut i: usize = 0;
    while i < replicas.len()
        invariant
            i <= replicas@.len(),
            forall|j: int| 0 <= j < i ==> (#[trigger] replicas@[j]).key != key,
        decreases replicas@.len() - i,
    {
        if replicas[i].key == key {
            return Some(i);
        }
        i = i + 1;
    }
    None
}

/// The index of the genome entry for `key`, when one exists.
fn find_genomes(genomes: &Vec<PlayerGenomes>, key: PlayerKey) -> (found: Option<usize>)
    ensures
        match found {
            Some(i) => i < genomes@.len() && genomes@[i as int].key == key,
            None => !spec_has_genomes(genomes@, key),
        },
{
    let mut i: usize = 0;
    while i < genomes.len()
        invariant
            i <= genomes@.len(),
            forall|j: int| 0 <= j < i ==> (#[trigger] genomes@[j]).key != key,
        decreases genomes@.len() - i,
    {
        if genomes[i].key == key {
            return Some(i);
        }
        i = i + 1;
    }
    None
}

/// Whether the genome list holds `g`.
pub fn genomes_contain(genomes: &Vec<AnimalKind>, g: AnimalKind) -> (found: bool)
    ensures
        found == genomes@.contains(g),
{
    let mut i: usize = 0;
    while i < genomes.len()
        invariant
            i <= genomes@.len(),
            forall|j: int| 0 <= j < i ==> genomes@[j] != g,
        decreases genomes@.len() - i,
    {
        if genomes[i] == g {
            proof {
                assert(genomes@[i as int] == g);
            }
            return true;
        }
        i = i + 1;
    }
    proof {
        if genomes@.contains(g) {
            let j = choose|j: int| 0 <= j < genomes@.len() && genomes@[j] == g;
            assert(false);
        }
    }
    false
}

/// The list with every copy of `g` dropped: moving off a facility
/// relocks its genome for the owner.
fn genomes_without(genomes: &Vec<AnimalKind>, g: AnimalKind) -> (out: Vec<AnimalKind>)
    ensures
        forall|x: AnimalKind|
            #[trigger] out@.contains(x) <==> (genomes@.contains(x) && x != g),
{
    let ghost orig = genomes@;
    let mut out: Vec<AnimalKind> = Vec::new();
    let mut i: usize = 0;
    while i < genomes.len()
        invariant
            i <= genomes@.len(),
            genomes@ == orig,
            forall|x: AnimalKind|
                #[trigger] out@.contains(x) <==> (orig.subrange(0, i as int).contains(x) && x
                    != g),
        decreases genomes@.len() - i,
    {
        let k = genomes[i];
        let ghost pre = out@;
        if k != g {
            out.push(k);
        }
        proof {
            let sub0 = orig.subrange(0, i as int);
            let sub1 = orig.subrange(0, i + 1);
            assert(sub1 =~= sub0.push(orig[i as int]));
            assert forall|x: AnimalKind| #[trigger] out@.contains(x) <==> (sub1.contains(x) && x
                != g) by {
                if out@.contains(x) {
                    let j = choose|j: int| 0 <= j < out@.len() && out@[j] == x;
                    if j < pre.len() {
                        assert(pre[j] == x);
                        assert(pre.contains(x));
                        let j0 = choose|j0: int| 0 <= j0 < sub0.len() && sub0[j0] == x;
                        assert(sub1[j0] == x);
                        assert(sub1.contains(x));
                    } else {
                        assert(x == k);
                        assert(sub1[i as int] == x);
                        assert(sub1.contains(x));
                    }
                }
                if sub1.contains(x) && x != g {
                    let j = choose|j: int| 0 <= j < sub1.len() && sub1[j] == x;
                    if j < i {
                        assert(sub0[j] == x);
                        assert(sub0.contains(x));
                        assert(pre.contains(x));
                        let jj = choose|jj: int| 0 <= jj < pre.len() && pre[jj] == x;
                        assert(out@[jj] == x);
                        assert(out@.contains(x));
                    } else {
                        assert(x == orig[i as int]);
                        assert(out@[pre.len() as int] == x);
                        assert(out@.contains(x));
                    }
                }
            }
        }
        i = i + 1;
    }
    proof {
        assert(orig.subrange(0, orig.len() as int) =~= orig);
    }
    out
}

/// The unit after one applied waypoint: it stands on the waypoint and
/// has spent one stamina (never dropping below zero).
pub open spec fn spec_moved_unit(u: Unit, next: AxialCoordinates) -> Unit {
    Unit {
        position: next,
        stamina_remaining: if u.stamina_remaining > 0 {
            (u.stamina_remaining - 1) as u16
        } else {
            0u16
        },
        ..u
    }
}

/// Whether some unit in the list carries this id.
pub open spec fn spec_has_unit(units: Seq<Unit>, id: UnitId) -> bool {
    exists|i: int| 0 <= i < units.len() && (#[trigger] units[i]).id == id
}

/// Membership in a player's genome set after one move step: the genome
/// of a facility stepped onto is held; the genome of a facility
/// stepped off is lost, unless it was just regained.
pub open spec fn spec_genome_membership_after_step(
    orig: Seq<AnimalKind>,
    lock: Option<AnimalKind>,
    unlock: Option<AnimalKind>,
    x: AnimalKind,
) -> bool {
    ||| (match unlock {
        Some(g2) => x == g2,
        None => false,
    })
    ||| (orig.contains(x) && (match lock {
        Some(g) => x != g,
        None => true,
    }))
}

/// The notifications one applied waypoint produces: a relock for a
/// facility stepped off, then an unlock for a facility stepped onto.
pub open spec fn spec_step_events(
    owner: PlayerKey,
    lock: Option<AnimalKind>,
    unlock: Option<AnimalKind>,
) -> Seq<GenomeStatusChange> {
    (match lock {
        Some(g) => seq![
            GenomeStatusChange { player: owner, species: g, status: LockedStatus::Locked },
        ],
        None => Seq::empty(),
    }) + (match unlock {
        Some(g2) => seq![
            GenomeStatusChange { player: owner, species: g2, status: LockedStatus::Unlocked },
        ],
        None => Seq::empty(),
    })
}

/// How one call to `advance_pending_move` relates the new state and
/// events to the old state. Replicas are untouched here; the
/// surrounding tick reconciles them afterwards.
pub open spec fn spec_advance_core(pre: MatchState, post: MatchState, events: Seq<
    GenomeStatusChange,
>) -> bool {
    &&& post.config == pre.config
    &&& post.auth_map == pre.auth_map
    &&& post.turn_tracker == pre.turn_tracker
    &&& post.next_unit_id == pre.next_unit_id
    &&& match pre.pending_move {
        None => {
            &&& post.pending_move is None
            &&& post.units == pre.units
            &&& post.genomes == pre.genomes
            &&& events.len() == 0
        },
        Some(pm) => {
            if pm.path@.len() == 0 || !spec_has_unit(pre.units@, pm.unit) {
                &&& post.pending_move is None
                &&& post.units == pre.units
                &&& post.genomes == pre.genomes
                &&& events.len() == 0
            } else {
                exists|i: int|
                    {
                        &&& 0 <= i < pre.units@.len()
                        &&& (#[trigger] pre.units@[i]).id == pm.unit
                        &&& spec_advance_step(pre, post, events, pm, i)
                    }
            }
        },
    }
}

/// The detailed effect of applying the next waypoint to unit `i`.
pub open spec fn spec_advance_step(
    pre: MatchState,
    post: MatchState,
    events: Seq<GenomeStatusChange>,
    pm: PendingMove,
    i: int,
) -> bool {
    let u = pre.units@[i];
    let next = pm.path@[0];
    let lock = spec_facility_genome(
        pre.auth_map.spec_tile(
            pre.config,
            u.position.column_q as int,
            u.position.row_r as int,
            0,
        ),
    );
    let unlock = spec_facility_genome(
        pre.auth_map.spec_tile(pre.config, next.column_q as int, next.row_r as int, 0),
    );
    &&& post.units@ == pre.units@.update(i, spec_moved_unit(u, next))
    &&& (pm.path@.len() == 1 ==> post.pending_move is None)
    &&& (pm.path@.len() > 1 ==> post.pending_move is Some && post.pending_move->0.unit == pm.unit
        && post.pending_move->0.path@ == pm.path@.drop_first())
    &&& if spec_has_genomes(pre.genomes@, u.owner) {
        &&& events == spec_step_events(u.owner, lock, unlock)
        &&& post.genomes@.len() == pre.genomes@.len()
        &&& forall|j: int|
            0 <= j < pre.genomes@.len() && (#[trigger] pre.genomes@[j]).key != u.owner
                ==> post.genomes@[j] == pre.genomes@[j]
        &&& forall|j: int|
            0 <= j < pre.genomes@.len() && (#[trigger] pre.genomes@[j]).key == u.owner ==> {
                &&& post.genomes@[j].key == u.owner
                &&& forall|x: AnimalKind|
                    #[trigger] post.genomes@[j].genomes@.contains(x)
                        == spec_genome_membership_after_step(
                        pre.genomes@[j].genomes@,
                        lock,
                        unlock,
                        x,
                    )
            }
    } else {
        events.len() == 0 && post.genomes == pre.genomes
    }
}

/// `s.push(e)` holds exactly the elements of `s` plus `e`.
proof fn lemma_push_contains<A>(s: Seq<A>, e: A, x: A)
    ensures
        s.push(e).contains(x) <==> (s.contains(x) || x == e),
{
    if s.push(e).contains(x) {
        let j = choose|j: int| 0 <= j < s.push(e).len() && s.push(e)[j] == x;
        if j < s.len() {
            assert(s[j] == x);
        }
    }
    if s.contains(x) {
        let j = choose|j: int| 0 <= j < s.len() && s[j] == x;
        assert(s.push(e)[j] == x);
    }
    if x == e {
        assert(s.push(e)[s.len() as int] == x);
    }
}

impl MatchState {
    /// Apply one waypoint of the in-flight move, if any: the unit steps
    /// onto the next waypoint, pays one stamina, loses the genome of a
    /// facility it stepped off and gains the genome of one it stepped
    /// onto. The move clears once its last waypoint is applied. Returns
    /// the genome notifications the step produced.
    pub fn advance_pending_move(&mut self) -> (events: Vec<GenomeStatusChange>)
        requires
            old(self).wf(),
        ensures
            final(self).wf(),
            final(self).replicas == old(self).replicas,
            spec_advance_core(*old(self), *final(self), events@),
    {
        let mut pm_opt: Option<PendingMove> = None;
        core::mem::swap(&mut pm_opt, &mut self.pending_move);
        let mut pm = match pm_opt {
            None => {
                return Vec::new();
            },
            Some(pm) => pm,
        };
        if pm.path.len() == 0 {
            return Vec::new();
        }
        let idx = match find_unit(&self.units, pm.unit) {
            None => {
                return Vec::new();
            },
            Some(i) => i,
        };
        let ghost pm0_path = pm.path@;
        let next = pm.path.remove(0);
        let unit = self.units[idx];
        proof {
            assert(self.units@[idx as int].wf(self.config));
            assert(old(self).pending_move->0.path@[0] == next);
        }
        let mut events: Vec<GenomeStatusChange> = Vec::new();
        let old_tile = self.auth_map.get(
            &self.config,
            unit.position.column_q,
            unit.position.row_r,
            0,
        );
        let new_tile = self.auth_map.get(&self.config, next.column_q, next.row_r, 0);
        match find_genomes(&self.genomes, unit.owner) {
            Some(gidx) => {
                match old_tile.structure {
                    TileStructure::GenomeFacility { unique_genome, .. } => {
                        let gs = genomes_without(&self.genomes[gidx].genomes, unique_genome);
                        self.genomes.set(gidx, PlayerGenomes { key: unit.owner, genomes: gs });
                        events.push(
                            GenomeStatusChange::new(
                                unit.owner,
                                unique_genome,
                                LockedStatus::Locked,
                            ),
                        );
                    },
                    _ => {},
                }
                match new_tile.structure {
                    TileStructure::GenomeFacility { unique_genome, .. } => {
                        let ghost before_push = self.genomes@[gidx as int].genomes@;
                        let mut gs2 = genomes_without(&self.genomes[gidx].genomes, unique_genome);
                        let ghost without_g = gs2@;
                        gs2.push(unique_genome);
                        proof {
                            assert forall|x: AnimalKind| #[trigger] gs2@.contains(x) <==> (
                            before_push.contains(x) || x == unique_genome) by {
                                lemma_push_contains(without_g, unique_genome, x);
                                assert(without_g.contains(x) <==> (before_push.contains(x) && x
                                    != unique_genome));
                            }
                        }
                        self.genomes.set(gidx, PlayerGenomes { key: unit.owner, genomes: gs2 });
                        events.push(
                            GenomeStatusChange::new(
                                unit.owner,
                                unique_genome,
                                LockedStatus::Unlocked,
                            ),
                        );
                    },
                    _ => {},
                }
            },
            None => {},
        }
        let moved = Unit {
            position: next,
            stamina_remaining: if unit.stamina_remaining > 0 {
                unit.stamina_remaining - 1
            } else {
                0
            },
            ..unit
        };
        self.units.set(idx, moved);
        if pm.path.len() > 0 {
            self.pending_move = Some(pm);
        }
        proof {
            let pre = *old(self);
            let post = *self;
            assert forall|i: int| 0 <= i < post.units@.len() implies (#[trigger] post.units@[i]).wf(
                post.config,
            ) by {
                if i != idx {
                    assert(post.units@[i] == pre.units@[i]);
                    assert(pre.units@[i].wf(pre.config));
                } else {
                    assert(pre.units@[i].wf(pre.config));
                }
            }
            assert forall|i: int, j: int| 0 <= i < j < post.units@.len() implies (
            #[trigger] post.units@[i]).id != (#[trigger] post.units@[j]).id by {
                assert(post.units@[i].id == pre.units@[i].id);
                assert(post.units@[j].id == pre.units@[j].id);
                assert(pre.units@[i].id != pre.units@[j].id);
            }
            assert forall|i: int| 0 <= i < post.units@.len() implies (#[trigger] post.units@[i]).id
                < post.next_unit_id by {
                assert(post.units@[i].id == pre.units@[i].id);
                assert(pre.units@[i].id < pre.next_unit_id);
            }
            assert(post.genomes@.len() == pre.genomes@.len());
            assert forall|j: int| 0 <= j < post.genomes@.len() implies (
            #[trigger] post.genomes@[j]).key == pre.genomes@[j].key by {}
            assert forall|p: int| 0 <= p < post.turn_tracker.spec_players().len() implies
                spec_has_genomes(
                post.genomes@,
                #[trigger] post.turn_tracker.spec_players()[p],
            ) by {
                let key = post.turn_tracker.spec_players()[p];
                assert(spec_has_genomes(pre.genomes@, key));
                let w = choose|w: int|
                    0 <= w < pre.genomes@.len() && (#[trigger] pre.genomes@[w]).key == key;
                assert(post.genomes@[w].key == key);
            }
            assert forall|i: int, j: int| 0 <= i < j < post.genomes@.len() implies (
            #[trigger] post.genomes@[i]).key != (#[trigger] post.genomes@[j]).key by {
                assert(pre.genomes@[i].key != pre.genomes@[j].key);
            }
            assert(events@ =~= spec_step_events(
                unit.owner,
                spec_facility_genome(
                    pre.auth_map.spec_tile(
                        pre.config,
                        unit.position.column_q as int,
                        unit.position.row_r as int,
                        0,
                    ),
                ),
                spec_facility_genome(
                    pre.auth_map.spec_tile(pre.config, next.column_q as int, next.row_r as int, 0),
                ),
            ) || !spec_has_genomes(pre.genomes@, unit.owner));
            assert((#[trigger] pre.units@[idx as int]).id == pre.pending_move->0.unit);
        }
        events
    }
}

/// A structure on this tile finishes building at marker `m`.
pub open spec fn spec_completes(t: Tile, m: TurnMarker) -> bool {
    match t.structure {
        TileStructure::GenomeFacility { building: Some(cs), .. } => cs.finished_on == m,
        _ => false,
    }
}

/// The tile after the completion scan at marker `m`: a finished build
/// slot is cleared, everything else stays.
pub open spec fn spec_tile_after_completion(t: Tile, m: TurnMarker) -> Tile {
    if spec_completes(t, m) {
        Tile {
            tile_type: t.tile_type,
            structure: match t.structure {
                TileStructure::GenomeFacility { unique_genome, .. } => TileStructure::GenomeFacility {
                    unique_genome,
                    building: None,
                },
                _ => t.structure,
            },
        }
    } else {
        t
    }
}

/// The unit a finished construction turns into: it appears on the
/// facility's tile, owned by the turn-holder, with the built hybrid's
/// health and a full movement budget.
pub open spec fn spec_unit_from_construction(
    t: Tile,
    cfg: MapConfig,
    idx: int,
    owner: PlayerKey,
    id: UnitId,
) -> Unit {
    let cs = match t.structure {
        TileStructure::GenomeFacility { building, .. } => building->0,
        _ => vstd::pervasive::arbitrary(),
    };
    Unit {
        id,
        owner,
        position: AxialCoordinates {
            column_q: crate::map::spec_index_q(
                cfg.size_width as int,
                cfg.size_height as int,
                idx,
            ) as u16,
            row_r: crate::map::spec_index_r(cfg.size_width as int, cfg.size_height as int, idx) as u16,
        },
        layer: crate::map::spec_index_z(cfg.size_width as int, cfg.size_height as int, idx) as u16,
        hybrid_type: cs.building,
        current_health: cs.building.spec_body().health,
        stamina_remaining: cs.building.spec_limbs().terrain_a.tiles_per_turn as u16,
    }
}

/// How many builds the first `k` tile slots complete at marker `m`.
pub open spec fn spec_spawn_count(tiles: Seq<Tile>, k: int, m: TurnMarker) -> int
    decreases k,
{
    if k <= 0 {
        0
    } else {
        spec_spawn_count(tiles, k - 1, m) + if spec_completes(tiles[k - 1], m) {
            1int
        } else {
            0int
        }
    }
}

/// The units the first `k` tile slots spawn at marker `m`, in slot
/// order, with ids counting up from `first_id`.
pub open spec fn spec_spawned_units(
    tiles: Seq<Tile>,
    k: int,
    m: TurnMarker,
    cfg: MapConfig,
    owner: PlayerKey,
    first_id: UnitId,
) -> Seq<Unit>
    decreases k,
{
    if k <= 0 {
        Seq::empty()
    } else {
        let prev = spec_spawned_units(tiles, k - 1, m, cfg, owner, first_id);
        if spec_completes(tiles[k - 1], m) {
            prev.push(
                spec_unit_from_construction(
                    tiles[k - 1],
                    cfg,
                    k - 1,
                    owner,
                    (first_id + prev.len()) as UnitId,
                ),
            )
        } else {
            prev
        }
    }
}

/// The spawned list grows with the count.
proof fn lemma_spawned_len(
    tiles: Seq<Tile>,
    k: int,
    m: TurnMarker,
    cfg: MapConfig,
    owner: PlayerKey,
    first_id: UnitId,
)
    ensures
        spec_spawned_units(tiles, k, m, cfg, owner, first_id).len() == spec_spawn_count(
            tiles,
            k,
            m,
        ),
        spec_spawn_count(tiles, k, m) <= if k <= 0 {
            0
        } else {
            k
        },
        spec_spawn_count(tiles, k, m) >= 0,
    decreases k,
{
    if k > 0 {
        lemma_spawned_len(tiles, k - 1, m, cfg, owner, first_id);
    }
}

/// A unit after a turn hand-over: the new turn-holder's units get
/// their movement budget back; everyone else is untouched.
pub open spec fn spec_reset_unit(u: Unit, holder: PlayerKey) -> Unit {
    if u.owner == holder {
        Unit { stamina_remaining: u.spec_stamina_budget(), ..u }
    } else {
        u
    }
}

/// All units after a turn hand-over to `holder`.
pub open spec fn spec_reset_units(units: Seq<Unit>, holder: PlayerKey) -> Seq<Unit> {
    Seq::new(units.len(), |i: int| spec_reset_unit(units[i], holder))
}

/// How `end_turn` relates the new state to the old: the rotation
/// advanced, the new holder's units refreshed, every build finishing
/// on the new marker cleared from the map and spawned as a unit.
pub open spec fn spec_end_turn_rel(pre: MatchState, post: MatchState) -> bool {
    let holder = post.turn_tracker.spec_player();
    let m = TurnMarker { player: holder, turn_number: post.turn_tracker.spec_turn_number() };
    let tiles0 = pre.auth_map.tiles@;
    let spawned = spec_spawned_units(
        tiles0,
        tiles0.len() as int,
        m,
        pre.config,
        holder,
        pre.next_unit_id,
    );
    &&& post.config == pre.config
    &&& post.pending_move == pre.pending_move
    &&& post.replicas == pre.replicas
    &&& post.genomes == pre.genomes
    &&& post.turn_tracker.spec_players() == pre.turn_tracker.spec_players()
    &&& post.turn_tracker.spec_current() == (pre.turn_tracker.spec_current() + 1) % (
    pre.turn_tracker.spec_players().len() as int)
    &&& post.turn_tracker.spec_turn_number() == if post.turn_tracker.spec_current() == 0 {
        if pre.turn_tracker.spec_turn_number() < u16::MAX {
            (pre.turn_tracker.spec_turn_number() + 1) as u16
        } else {
            u16::MAX
        }
    } else {
        pre.turn_tracker.spec_turn_number()
    }
    &&& post.auth_map.tiles@.len() == tiles0.len()
    &&& forall|j: int|
        0 <= j < tiles0.len() ==> #[trigger] post.auth_map.tiles@[j] == spec_tile_after_completion(
            tiles0[j],
            m,
        )
    &&& post.units@ == spec_reset_units(pre.units@, holder) + spawned
    &&& post.next_unit_id == pre.next_unit_id + spawned.len()
}

impl MatchState {
    /// Advance the turn: the next player in the rotation takes over
    /// with a fresh movement budget on their units, and every build
    /// recorded to finish on the new turn marker is resolved — the
    /// facility's slot is cleared and the built hybrid appears there as
    /// a new unit of the turn-holder. Returns the spawned unit ids.
    pub fn end_turn(&mut self) -> (spawned: Vec<UnitId>)
        requires
            old(self).wf(),
            old(self).next_unit_id + old(self).auth_map.tiles@.len() <= u64::MAX,
        ensures
            final(self).wf(),
            spec_end_turn_rel(*old(self), *final(self)),
            spawned@.len() == final(self).next_unit_id - old(self).next_unit_id,
            forall|j: int|
                0 <= j < spawned@.len() ==> #[trigger] spawned@[j] == old(self).next_unit_id + j,
    {
        self.turn_tracker.advance();
        let holder = self.turn_tracker.player();
        let number = self.turn_tracker.turn_number();
        let m = TurnMarker { player: holder, turn_number: number };
        let ghost s1 = *self;

        // Refresh the new holder's movement budgets.
        let ghost units0 = self.units@;
        let mut i: usize = 0;
        while i < self.units.len()
            invariant
                i <= self.units@.len(),
                self.units@.len() == units0.len(),
                self.config == s1.config,
                self.auth_map == s1.auth_map,
                self.turn_tracker == s1.turn_tracker,
                self.pending_move == s1.pending_move,
                self.replicas == s1.replicas,
                self.genomes == s1.genomes,
                self.next_unit_id == s1.next_unit_id,
                forall|j: int|
                    0 <= j < i ==> #[trigger] self.units@[j] == spec_reset_unit(units0[j], holder),
                forall|j: int| i <= j < units0.len() ==> #[trigger] self.units@[j] == units0[j],
            decreases self.units@.len() - i,
        {
            let u = self.units[i];
            if u.owner == holder {
                let budget = u.stamina_budget();
                self.units.set(i, Unit { stamina_remaining: budget, ..u });
            }
            i = i + 1;
        }
        proof {
            assert(self.units@ =~= spec_reset_units(units0, holder));
        }

        // Resolve finished builds.
        let ghost tiles0 = self.auth_map.tiles@;
        let ghost first_id = self.next_unit_id;
        let ghost pre_cfg = self.config;
        let total = self.auth_map.tiles.len();
        let mut spawned: Vec<UnitId> = Vec::new();
        let mut idx: usize = 0;
        while idx < total
            invariant
                idx <= total,
                total == tiles0.len(),
                self.config == pre_cfg,
                self.turn_tracker == s1.turn_tracker,
                self.pending_move == s1.pending_move,
                self.replicas == s1.replicas,
                self.genomes == s1.genomes,
                m.player == holder,
                m.turn_number == number,
                holder == s1.turn_tracker.spec_player(),
                number == s1.turn_tracker.spec_turn_number(),
                pre_cfg.wf(),
                pre_cfg.spec_tile_count() <= usize::MAX,
                tiles0.len() == pre_cfg.spec_tile_count(),
                first_id + tiles0.len() <= u64::MAX,
                self.auth_map.tiles@.len() == tiles0.len(),
                forall|j: int|
                    0 <= j < idx ==> #[trigger] self.auth_map.tiles@[j]
                        == spec_tile_after_completion(tiles0[j], m),
                forall|j: int| idx <= j < tiles0.len() ==> #[trigger] self.auth_map.tiles@[j] == tiles0[j],
                self.units@ == spec_reset_units(units0, holder) + spec_spawned_units(
                    tiles0,
                    idx as int,
                    m,
                    pre_cfg,
                    holder,
                    first_id,
                ),
                self.next_unit_id == first_id + spec_spawn_count(tiles0, idx as int, m),
                spawned@.len() == spec_spawn_count(tiles0, idx as int, m),
                forall|j: int| 0 <= j < spawned@.len() ==> #[trigger] spawned@[j] == first_id + j,
            decreases total - idx,
        {
            proof {
                lemma_spawned_len(tiles0, idx as int, m, pre_cfg, holder, first_id);
                lemma_spawned_len(tiles0, idx + 1, m, pre_cfg, holder, first_id);
            }
            let tile = self.auth_map.tiles[idx];
            let completes = match tile.structure {
                TileStructure::GenomeFacility { building: Some(cs), .. } => {
                    cs.finished_on == m
                },
                _ => false,
            };
            if completes {
                match tile.structure {
                    TileStructure::GenomeFacility { unique_genome, building } => {
                        match building {
                            Some(cs) => {
                                let (q, r, z) = crate::map::index_to_tile_qrz(&self.config, idx);
                                let unit = Unit {
                                    id: self.next_unit_id,
                                    owner: holder,
                                    position: AxialCoordinates { column_q: q, row_r: r },
                                    layer: z,
                                    hybrid_type: cs.building,
                                    current_health: cs.building.body().health,
                                    stamina_remaining: cs.building.limbs().terrain_a.tiles_per_turn
                                        as u16,
                                };
                                self.units.push(unit);
                                spawned.push(self.next_unit_id);
                                self.next_unit_id = self.next_unit_id + 1;
                                self.auth_map.tiles.set(
                                    idx,
                                    Tile {
                                        tile_type: tile.tile_type,
                                        structure: TileStructure::GenomeFacility {
                                            unique_genome,
                                            building: None,
                                        },
                                    },
                                );
                            },
                            None => {},
                        }
                    },
                    _ => {},
                }
            }
            idx = idx + 1;
        }
        proof {
            lemma_spawned_len(tiles0, tiles0.len() as int, m, pre_cfg, holder, first_id);
            lemma_end_turn_wf(*old(self), *self, units0, tiles0, m, holder, first_id);
        }
        spawned
    }
}

/// The state after a completion scan is still well-formed: spawned
/// units stand on their facility's tile with fresh distinct ids, and
/// nothing else moved.
proof fn lemma_end_turn_wf(
    pre: MatchState,
    post: MatchState,
    units0: Seq<Unit>,
    tiles0: Seq<Tile>,
    m: TurnMarker,
    holder: PlayerKey,
    first_id: UnitId,
)
    requires
        pre.wf(),
        units0 == pre.units@,
        tiles0 == pre.auth_map.tiles@,
        holder == post.turn_tracker.spec_player(),
        first_id == pre.next_unit_id,
        first_id + tiles0.len() <= u64::MAX,
        post.config == pre.config,
        post.turn_tracker.wf(),
        post.turn_tracker.spec_players() == pre.turn_tracker.spec_players(),
        post.pending_move == pre.pending_move,
        post.replicas == pre.replicas,
        post.genomes == pre.genomes,
        post.auth_map.tiles@.len() == tiles0.len(),
        forall|j: int|
            0 <= j < tiles0.len() ==> #[trigger] post.auth_map.tiles@[j]
                == spec_tile_after_completion(tiles0[j], m),
        post.units@ == spec_reset_units(units0, holder) + spec_spawned_units(
            tiles0,
            tiles0.len() as int,
            m,
            pre.config,
            holder,
            first_id,
        ),
        post.next_unit_id == first_id + spec_spawn_count(tiles0, tiles0.len() as int, m),
    ensures
        post.wf(),
{
    let wi = pre.config.size_width as int;
    let hi = pre.config.size_height as int;
    let n = tiles0.len() as int;
    let resets = spec_reset_units(units0, holder);
    let spawned = spec_spawned_units(tiles0, n, m, pre.config, holder, first_id);
    lemma_spawned_props(tiles0, n, m, pre.config, holder, first_id);
    lemma_spawned_len(tiles0, n, m, pre.config, holder, first_id);
    assert forall|i: int| 0 <= i < post.units@.len() implies (#[trigger] post.units@[i]).wf(
        post.config,
    ) by {
        if i < resets.len() {
            assert(units0[i].wf(pre.config));
            assert(post.units@[i] == spec_reset_unit(units0[i], holder));
        } else {
            assert(post.units@[i] == spec_spawned_units(
                tiles0,
                n,
                m,
                pre.config,
                holder,
                first_id,
            )[i - resets.len()]);
        }
    }
    assert forall|i: int, j: int| 0 <= i < j < post.units@.len() implies (
    #[trigger] post.units@[i]).id != (#[trigger] post.units@[j]).id by {
        spawned_or_reset_id(pre, post, units0, tiles0, m, holder, first_id, i);
        spawned_or_reset_id(pre, post, units0, tiles0, m, holder, first_id, j);
    }
    assert forall|i: int| 0 <= i < post.units@.len() implies (#[trigger] post.units@[i]).id
        < post.next_unit_id by {
        spawned_or_reset_id(pre, post, units0, tiles0, m, holder, first_id, i);
    }
    assert forall|i: int| 0 <= i < post.replicas@.len() implies (
    #[trigger] post.replicas@[i]).map.wf(post.config) by {
        assert(pre.replicas@[i].map.wf(pre.config));
    }
    assert(post.auth_map.wf(post.config));
    assert forall|i: int| 0 <= i < post.auth_map.tiles@.len() implies (
    #[trigger] post.auth_map.tiles@[i]).tile_type != crate::tile::TileType::Fog by {
        assert(pre.auth_map.tiles@[i].tile_type != crate::tile::TileType::Fog);
        assert(post.auth_map.tiles@[i] == spec_tile_after_completion(tiles0[i], m));
    }
}

/// Every post-scan unit either keeps its old id (below the old id
/// counter) or is the `k`-th spawn with id `first_id + k`; either way
/// ids stay distinct and below the new counter.
proof fn spawned_or_reset_id(
    pre: MatchState,
    post: MatchState,
    units0: Seq<Unit>,
    tiles0: Seq<Tile>,
    m: TurnMarker,
    holder: PlayerKey,
    first_id: UnitId,
    i: int,
)
    requires
        pre.wf(),
        units0 == pre.units@,
        tiles0 == pre.auth_map.tiles@,
        first_id == pre.next_unit_id,
        post.units@ == spec_reset_units(units0, holder) + spec_spawned_units(
            tiles0,
            tiles0.len() as int,
            m,
            pre.config,
            holder,
            first_id,
        ),
        first_id + tiles0.len() <= u64::MAX,
        post.next_unit_id == first_id + spec_spawn_count(tiles0, tiles0.len() as int, m),
        0 <= i < post.units@.len(),
    ensures
        i < units0.len() ==> post.units@[i].id == units0[i].id && post.units@[i].id < first_id,
        i >= units0.len() ==> post.units@[i].id == first_id + (i - units0.len()),
        post.units@[i].id < post.next_unit_id,
{
    let n = tiles0.len() as int;
    lemma_spawned_len(tiles0, n, m, pre.config, holder, first_id);
    lemma_spawned_props(tiles0, n, m, pre.config, holder, first_id);
    if i < units0.len() {
        assert(post.units@[i] == spec_reset_units(units0, holder)[i]);
        assert(units0[i].id < pre.next_unit_id);
    } else {
        assert(post.units@[i] == spec_spawned_units(tiles0, n, m, pre.config, holder, first_id)[
            i - units0.len()]);
    }
}

/// Each spawned unit stands on its facility's tile (so on the map) and
/// carries id `first_id` plus its position in the spawn order.
proof fn lemma_spawned_props(
    tiles0: Seq<Tile>,
    k: int,
    m: TurnMarker,
    cfg: MapConfig,
    holder: PlayerKey,
    first_id: UnitId,
)
    requires
        cfg.wf(),
        tiles0.len() == cfg.spec_tile_count(),
        k <= tiles0.len(),
        first_id + tiles0.len() <= u64::MAX,
    ensures
        forall|j: int|
            0 <= j < spec_spawned_units(tiles0, k, m, cfg, holder, first_id).len() ==> {
                let u = #[trigger] spec_spawned_units(tiles0, k, m, cfg, holder, first_id)[j];
                &&& u.wf(cfg)
                &&& u.owner == holder
                &&& u.id == first_id + j
            },
    decreases k,
{
    lemma_spawned_len(tiles0, k, m, cfg, holder, first_id);
    if k > 0 {
        lemma_spawned_props(tiles0, k - 1, m, cfg, holder, first_id);
        lemma_spawned_len(tiles0, k - 1, m, cfg, holder, first_id);
        if spec_completes(tiles0[k - 1], m) {
            let prev = spec_spawned_units(tiles0, k - 1, m, cfg, holder, first_id);
            let u = spec_unit_from_construction(
                tiles0[k - 1],
                cfg,
                k - 1,
                holder,
                (first_id + prev.len()) as UnitId,
            );
            crate::map::lemma_tile_index_bounds(
                cfg.size_width as int,
                cfg.size_height as int,
                0,
                0,
                0,
            );
            assert(u.wf(cfg)) by {
                lemma_index_coords_in_bounds(cfg, k - 1);
            }
        }
    }
}

/// The decomposed coordinates of any valid slot lie in bounds.
proof fn lemma_index_coords_in_bounds(cfg: MapConfig, idx: int)
    requires
        cfg.wf(),
        0 <= idx < cfg.spec_tile_count(),
    ensures
        spec_in_bounds(
            cfg,
            crate::map::spec_index_q(cfg.size_width as int, cfg.size_height as int, idx),
            crate::map::spec_index_r(cfg.size_width as int, cfg.size_height as int, idx),
            crate::map::spec_index_z(cfg.size_width as int, cfg.size_height as int, idx),
        ),
{
    let wi = cfg.size_width as int;
    let hi = cfg.size_height as int;
    assert(wi * hi > 0) by (nonlinear_arith)
        requires
            wi > 0,
            hi > 0,
    ;
    vstd::arithmetic::div_mod::lemma_mod_bound(idx % (wi * hi), wi);
    vstd::arithmetic::div_mod::lemma_mod_bound(idx, wi * hi);
    assert(spec_index_z(wi, hi, idx) < 2) by {
        assert(2 * (wi * hi) == 2 * wi * hi) by (nonlinear_arith);
        vstd::arithmetic::div_mod::lemma_fundamental_div_mod_converse(
            2 * (wi * hi) - 1,
            wi * hi,
            1,
            wi * hi - 1,
        );
        vstd::arithmetic::div_mod::lemma_div_is_ordered(idx, 2 * (wi * hi) - 1, wi * hi);
    }
    assert(spec_index_z(wi, hi, idx) >= 0) by {
        vstd::arithmetic::div_mod::lemma_div_pos_is_pos(idx, wi * hi);
    }
    assert(spec_index_r(wi, hi, idx) < hi) by {
        assert(hi * wi - 1 == (hi - 1) * wi + (wi - 1) && hi * wi == wi * hi) by (nonlinear_arith);
        vstd::arithmetic::div_mod::lemma_fundamental_div_mod_converse(
            hi * wi - 1,
            wi,
            hi - 1,
            wi - 1,
        );
        vstd::arithmetic::div_mod::lemma_div_is_ordered(idx % (wi * hi), hi * wi - 1, wi);
    }
    assert(spec_index_r(wi, hi, idx) >= 0) by {
        vstd::arithmetic::div_mod::lemma_mod_pos_bound(idx, wi * hi);
        vstd::arithmetic::div_mod::lemma_div_pos_is_pos(idx % (wi * hi), wi);
    }
}

/// Why a build request was rejected. All of these are recoverable:
/// the command is dropped and nothing changes.
#[derive(Clone, Copy, Debug, PartialEq, Eq, Structural)]
pub enum BuildError {
    /// The target coordinate is off the map.
    OutOfBounds,
    /// The player has no unit standing on the target tile.
    NoUnitThere,
    /// The target tile carries no genome facility.
    NoFacility,
    /// The facility is already building something.
    BuildInProgress,
    /// The player has not unlocked all three requested genomes.
    GenomeLocked,
    /// The completion turn would not fit in a turn number.
    TurnLimit,
}

/// The player has unlocked the genome: their entry holds it.
pub open spec fn spec_player_has_genome(
    genomes: Seq<PlayerGenomes>,
    player: PlayerKey,
    kind: AnimalKind,
) -> bool {
    exists|j: int|
        0 <= j < genomes.len() && (#[trigger] genomes[j]).key == player
            && genomes[j].genomes@.contains(kind)
}

/// The recorded construction on the facility tile after a successful
/// build: same terrain and genome, a build slot filled with the
/// requested hybrid, finishing on the builder's turn `finish`.
pub open spec fn spec_built_tile_ok(
    old_t: Tile,
    new_t: Tile,
    player: PlayerKey,
    finish: u16,
    head: AnimalKind,
    body: AnimalKind,
    limbs: AnimalKind,
) -> bool {
    &&& new_t.tile_type == old_t.tile_type
    &&& match (old_t.structure, new_t.structure) {
        (
            TileStructure::GenomeFacility { unique_genome: g0, .. },
            TileStructure::GenomeFacility { unique_genome: g1, building: Some(cs) },
        ) => {
            &&& g1 == g0
            &&& cs.finished_on == (TurnMarker { player, turn_number: finish })
            &&& cs.building.spec_head_type() == head
            &&& cs.building.spec_body_type() == body
            &&& cs.building.spec_limbs_type() == limbs
            &&& cs.building.spec_head() == crate::genome::spec_animal_type(head).head
            &&& cs.building.spec_body() == crate::genome::spec_animal_type(body).body
            &&& cs.building.spec_limbs() == crate::genome::spec_animal_type(limbs).limbs
        },
        _ => false,
    }
}

/// How a successful build relates the new state to the old: only the
/// facility's tile changed, and the completion turn is the current
/// turn plus the tiered build duration.
pub open spec fn spec_build_rel(
    pre: MatchState,
    post: MatchState,
    player: PlayerKey,
    pos: AxialCoordinates,
    head: AnimalKind,
    body: AnimalKind,
    limbs: AnimalKind,
    finish: u16,
) -> bool {
    let slot = spec_tile_index(
        pre.config.size_width as int,
        pre.config.size_height as int,
        pos.column_q as int,
        pos.row_r as int,
        0,
    );
    &&& finish == pre.turn_tracker.spec_turn_number() + spec_build_turns(head, body, limbs)
    &&& post.config == pre.config
    &&& post.units == pre.units
    &&& post.next_unit_id == pre.next_unit_id
    &&& post.turn_tracker == pre.turn_tracker
    &&& post.pending_move == pre.pending_move
    &&& post.replicas == pre.replicas
    &&& post.genomes == pre.genomes
    &&& post.auth_map.tiles@.len() == pre.auth_map.tiles@.len()
    &&& forall|j: int|
        0 <= j < pre.auth_map.tiles@.len() && j != slot ==> #[trigger] post.auth_map.tiles@[j]
            == pre.auth_map.tiles@[j]
    &&& spec_built_tile_ok(
        pre.auth_map.tiles@[slot],
        post.auth_map.tiles@[slot],
        player,
        finish,
        head,
        body,
        limbs,
    )
}

impl MatchState {
    /// Record a hybrid build: accepted only when the player has a unit
    /// standing on the target tile, the tile carries a genome facility
    /// with no build in progress, and the player's unlocked genomes
    /// cover head, body and limbs. The duration is tiered by how many
    /// of the three parts match: two turns for a full match, four for
    /// a partial one, six when all differ. Returns the completion turn.
    pub fn build_hybrid(
        &mut self,
        player: PlayerKey,
        pos: AxialCoordinates,
        head: AnimalKind,
        body: AnimalKind,
        limbs: AnimalKind,
    ) -> (res: Result<u16, BuildError>)
        requires
            old(self).wf(),
        ensures
            final(self).wf(),
            match res {
                Ok(finish) => spec_build_rel(
                    *old(self),
                    *final(self),
                    player,
                    pos,
                    head,
                    body,
                    limbs,
                    finish,
                ),
                Err(e) => *final(self) == *old(self) && spec_build_err_cond(
                    *old(self),
                    player,
                    pos,
                    head,
                    body,
                    limbs,
                    e,
                ),
            },
    {
        if !(pos.column_q < self.config.size_width && pos.row_r < self.config.size_height) {
            return Err(BuildError::OutOfBounds);
        }
        if !player_has_unit_at(&self.units, player, pos) {
            return Err(BuildError::NoUnitThere);
        }
        let tile = self.auth_map.get(&self.config, pos.column_q, pos.row_r, 0);
        match tile.structure {
            TileStructure::GenomeFacility { unique_genome, building } => {
                match building {
                    Some(_) => Err(BuildError::BuildInProgress),
                    None => {
                        let unlocked = match find_genomes(&self.genomes, player) {
                            Some(g) => {
                                let entry = &self.genomes[g].genomes;
                                let all = genomes_contain(entry, head) && genomes_contain(
                                    entry,
                                    body,
                                ) && genomes_contain(entry, limbs);
                                proof {
                                    lemma_unique_genome_entry(self.genomes@, player, g as int);
                                }
                                all
                            },
                            None => false,
                        };
                        if !unlocked {
                            return Err(BuildError::GenomeLocked);
                        }
                        let turns = build_turns(head, body, limbs);
                        let number = self.turn_tracker.turn_number();
                        if number > u16::MAX - turns {
                            return Err(BuildError::TurnLimit);
                        }
                        let finish = number + turns;
                        let hybrid = Hybrid::from_kinds(head, body, limbs);
                        let cs = ConstructionStatus {
                            building: hybrid,
                            finished_on: TurnMarker { player, turn_number: finish },
                        };
                        let ghost pre = *self;
                        self.auth_map.set(
                            &self.config,
                            pos.column_q,
                            pos.row_r,
                            0,
                            Tile {
                                tile_type: tile.tile_type,
                                structure: TileStructure::GenomeFacility {
                                    unique_genome,
                                    building: Some(cs),
                                },
                            },
                        );
                        proof {
                            let wi = self.config.size_width as int;
                            let hi = self.config.size_height as int;
                            let slot = spec_tile_index(
                                wi,
                                hi,
                                pos.column_q as int,
                                pos.row_r as int,
                                0,
                            );
                            crate::map::lemma_tile_index_bounds(
                                wi,
                                hi,
                                pos.column_q as int,
                                pos.row_r as int,
                                0,
                            );
                            assert(self.auth_map.tiles@[slot].tile_type == tile.tile_type);
                            assert forall|i: int| 0 <= i < self.auth_map.tiles@.len() implies (
                            #[trigger] self.auth_map.tiles@[i]).tile_type
                                != crate::tile::TileType::Fog by {
                                assert(pre.auth_map.tiles@[i].tile_type
                                    != crate::tile::TileType::Fog);
                                if i != slot {
                                    assert(self.auth_map.tiles@[i] == pre.auth_map.tiles@[i]);
                                }
                            }
                        }
                        Ok(finish)
                    },
                }
            },
            _ => Err(BuildError::NoFacility),
        }
    }
}

/// With distinct genome keys, the whole-list genome test reduces to
/// the one entry that carries the player's key.
proof fn lemma_unique_genome_entry(genomes: Seq<PlayerGenomes>, player: PlayerKey, g: int)
    requires
        forall|i: int, j: int|
            0 <= i < j < genomes.len() ==> (#[trigger] genomes[i]).key != (
            #[trigger] genomes[j]).key,
        0 <= g < genomes.len(),
        genomes[g].key == player,
    ensures
        forall|x: AnimalKind|
            spec_player_has_genome(genomes, player, x) <==> #[trigger] genomes[g].genomes@.contains(
                x,
            ),
{
    assert forall|x: AnimalKind|
        spec_player_has_genome(genomes, player, x) <==> #[trigger] genomes[g].genomes@.contains(
            x,
        ) by {
        if spec_player_has_genome(genomes, player, x) {
            let j = choose|j: int|
                0 <= j < genomes.len() && (#[trigger] genomes[j]).key == player
                    && genomes[j].genomes@.contains(x);
            if j != g {
                if j < g {
                    assert(genomes[j].key != genomes[g].key);
                } else {
                    assert(genomes[g].key != genomes[j].key);
                }
                assert(false);
            }
        }
        if genomes[g].genomes@.contains(x) {
            assert((#[trigger] genomes[g]).key == player && genomes[g].genomes@.contains(x));
        }
    }
}

/// The condition under which each build rejection is produced; the
/// checks run in this order, each assuming the earlier ones passed.
pub open spec fn spec_build_err_cond(
    pre: MatchState,
    player: PlayerKey,
    pos: AxialCoordinates,
    head: AnimalKind,
    body: AnimalKind,
    limbs: AnimalKind,
    e: BuildError,
) -> bool {
    let in_bounds = pos.column_q < pre.config.size_width && pos.row_r < pre.config.size_height;
    let unit_there = exists|i: int|
        0 <= i < pre.units@.len() && (#[trigger] pre.units@[i]).owner == player
            && pre.units@[i].position == pos;
    let tile = pre.auth_map.spec_tile(pre.config, pos.column_q as int, pos.row_r as int, 0);
    match e {
        BuildError::OutOfBounds => !in_bounds,
        BuildError::NoUnitThere => in_bounds && !unit_there,
        BuildError::NoFacility => in_bounds && unit_there && !(tile.structure matches
        TileStructure::GenomeFacility { .. }),
        BuildError::BuildInProgress => in_bounds && unit_there && (tile.structure matches
        TileStructure::GenomeFacility { building: Some(_), .. }),
        BuildError::GenomeLocked => {
            &&& in_bounds
            &&& unit_there
            &&& tile.structure matches TileStructure::GenomeFacility { building: None, .. }
            &&& !(spec_player_has_genome(pre.genomes@, player, head) && spec_player_has_genome(
                pre.genomes@,
                player,
                body,
            ) && spec_player_has_genome(pre.genomes@, player, limbs))
        },
        BuildError::TurnLimit => {
            &&& in_bounds
            &&& unit_there
            &&& tile.structure matches TileStructure::GenomeFacility { building: None, .. }
            &&& spec_player_has_genome(pre.genomes@, player, head)
            &&& spec_player_has_genome(pre.genomes@, player, body)
            &&& spec_player_has_genome(pre.genomes@, player, limbs)
            &&& pre.turn_tracker.spec_turn_number() + spec_build_turns(head, body, limbs)
                > u16::MAX
        },
    }
}

/// The replica map held for `key`, assuming one exists.
pub open spec fn spec_replica_map(replicas: Seq<PlayerReplica>, key: PlayerKey) -> TileMap {
    replicas[choose|i: int| 0 <= i < replicas.len() && (#[trigger] replicas[i]).key == key].map
}

/// How an accepted movement command relates the new state to the old:
/// only the pending move changed, and it now carries the validated
/// line minus the unit's own starting tile.
pub open spec fn spec_move_started_rel(
    pre: MatchState,
    post: MatchState,
    player: PlayerKey,
    unit_id: UnitId,
    target: AxialCoordinates,
) -> bool {
    &&& post.config == pre.config
    &&& post.auth_map == pre.auth_map
    &&& post.units == pre.units
    &&& post.next_unit_id == pre.next_unit_id
    &&& post.turn_tracker == pre.turn_tracker
    &&& post.replicas == pre.replicas
    &&& post.genomes == pre.genomes
    &&& exists|i: int|
        {
            &&& 0 <= i < pre.units@.len()
            &&& (#[trigger] pre.units@[i]).id == unit_id
            &&& pre.units@[i].owner == player
            &&& post.pending_move is Some
            &&& post.pending_move->0.unit == unit_id
            &&& post.pending_move->0.path@ == spec_hex_line(
                pre.units@[i].position,
                target,
            ).drop_first()
            &&& spec_path_ok(
                spec_replica_map(pre.replicas@, player),
                pre.config,
                pre.units@[i].hybrid_type.spec_limbs(),
                pre.units@[i].stamina_remaining as int,
                spec_hex_line(pre.units@[i].position, target),
            )
        }
}

/// One player's replica after reconciliation against the world.
pub open spec fn spec_replica_reconciled(
    old_rep: PlayerReplica,
    new_rep: PlayerReplica,
    auth: TileMap,
    units: Seq<Unit>,
    cfg: MapConfig,
) -> bool {
    &&& new_rep.key == old_rep.key
    &&& new_rep.map.wf(cfg)
    &&& forall|q: int, r: int, z: int|
        spec_in_bounds(cfg, q, r, z) ==> #[trigger] new_rep.map.spec_tile(cfg, q, r, z)
            == crate::replica::spec_reconciled_tile(
            auth.spec_tile(cfg, q, r, z),
            old_rep.map.spec_tile(cfg, q, r, z),
            crate::visibility::spec_visible(units, old_rep.key, cfg, q, r),
        )
}

/// The answer the validator gives to one inbound command.
#[derive(Clone, Copy, Debug, PartialEq, Eq, Structural)]
pub enum CommandOutcome {
    /// The sender is not the turn-holder: dropped without effect.
    NotYourTurn,
    /// A move is already in flight: dropped without effect.
    MoveInProgress,
    /// The movement request failed validation: dropped without effect.
    MoveRejected(MoveError),
    /// The movement request was accepted and is now the pending move.
    MoveStarted,
    /// The turn advanced to the given holder and number.
    TurnEnded { player: PlayerKey, turn_number: u16 },
    /// The build request was rejected: dropped without effect.
    BuildRejected(BuildError),
    /// The build was recorded, finishing on the given turn.
    BuildStarted { finished_on: u16 },
}

impl MatchState {
    /// Consume one inbound command. Commands from anyone but the
    /// turn-holder are dropped without any effect, as is a second
    /// movement command while one is in flight and any command that
    /// fails validation; an accepted command mutates exactly what its
    /// relation describes.
    pub fn handle_command(&mut self, sender: PlayerKey, command: PlayerInputVariant) -> (outcome:
        CommandOutcome)
        requires
            old(self).wf(),
            old(self).next_unit_id + old(self).auth_map.tiles@.len() <= u64::MAX,
        ensures
            final(self).wf(),
            sender != old(self).turn_tracker.spec_player() ==> *final(self) == *old(self)
                && outcome == CommandOutcome::NotYourTurn,
            sender == old(self).turn_tracker.spec_player() ==> match command {
                PlayerInputVariant::MoveEntity(unit_id, target) => {
                    &&& (old(self).pending_move is Some ==> *final(self) == *old(self) && outcome
                        == CommandOutcome::MoveInProgress)
                    &&& (old(self).pending_move is None ==> match outcome {
                        CommandOutcome::MoveRejected(_) => *final(self) == *old(self),
                        CommandOutcome::MoveStarted => spec_move_started_rel(
                            *old(self),
                            *final(self),
                            sender,
                            unit_id,
                            target,
                        ),
                        _ => false,
                    })
                },
                PlayerInputVariant::EndTurn => {
                    &&& spec_end_turn_rel(*old(self), *final(self))
                    &&& outcome == (CommandOutcome::TurnEnded {
                        player: final(self).turn_tracker.spec_player(),
                        turn_number: final(self).turn_tracker.spec_turn_number(),
                    })
                },
                PlayerInputVariant::BuildHybrid(pos, head, body, limbs) => match outcome {
                    CommandOutcome::BuildRejected(e) => *final(self) == *old(self)
                        && spec_build_err_cond(*old(self), sender, pos, head, body, limbs, e),
                    CommandOutcome::BuildStarted { finished_on } => spec_build_rel(
                        *old(self),
                        *final(self),
                        sender,
                        pos,
                        head,
                        body,
                        limbs,
                        finished_on,
                    ),
                    _ => false,
                },
            },
    {
        let current = self.turn_tracker.player();
        if sender != current {
            return CommandOutcome::NotYourTurn;
        }
        match command {
            PlayerInputVariant::MoveEntity(unit_id, target) => {
                match &self.pending_move {
                    Some(_) => {
                        return CommandOutcome::MoveInProgress;
                    },
                    None => {},
                }
                let ridx = match find_replica(&self.replicas, sender) {
                    Some(r) => r,
                    None => {
                        proof {
                            assert(spec_has_replica(
                                self.replicas@,
                                self.turn_tracker.spec_players()[self.turn_tracker.spec_current()],
                            ));
                            assert(false);
                        }
                        return CommandOutcome::NotYourTurn;
                    },
                };
                proof {
                    lemma_unique_replica_entry(self.replicas@, sender, ridx as int);
                }
                let res = validate_move(
                    &self.units,
                    &self.replicas[ridx].map,
                    &self.config,
                    sender,
                    unit_id,
                    target,
                );
                match res {
                    Err(e) => CommandOutcome::MoveRejected(e),
                    Ok(mut path) => {
                        let ghost line = path@;
                        proof {
                            let i = choose|i: int|
                                {
                                    &&& 0 <= i < self.units@.len()
                                    &&& (#[trigger] self.units@[i]).id == unit_id
                                    &&& self.units@[i].owner == sender
                                    &&& target.column_q < self.config.size_width
                                        && target.row_r < self.config.size_height
                                    &&& self.units@[i].position != target
                                    &&& path@ == spec_hex_line(self.units@[i].position, target)
                                    &&& spec_path_ok(
                                        self.replicas@[ridx as int].map,
                                        self.config,
                                        self.units@[i].hybrid_type.spec_limbs(),
                                        self.units@[i].stamina_remaining as int,
                                        path@,
                                    )
                                };
                            crate::hex::lemma_hex_dist_nonneg(
                                self.units@[i].position.column_q as int,
                                self.units@[i].position.row_r as int,
                                target.column_q as int,
                                target.row_r as int,
                            );
                            crate::hex::lemma_hex_dist_zero(self.units@[i].position, target);
                        }
                        let _first = path.remove(0);
                        proof {
                            assert forall|j: int| 0 <= j < path@.len() implies (
                            #[trigger] path@[j]).column_q < self.config.size_width
                                && path@[j].row_r < self.config.size_height by {
                                assert(path@[j] == line[j + 1]);
                            }
                        }
                        self.pending_move = Some(PendingMove { unit: unit_id, path });
                        CommandOutcome::MoveStarted
                    },
                }
            },
            PlayerInputVariant::EndTurn => {
                let _spawned = self.end_turn();
                let player = self.turn_tracker.player();
                let turn_number = self.turn_tracker.turn_number();
                CommandOutcome::TurnEnded { player, turn_number }
            },
            PlayerInputVariant::BuildHybrid(pos, head, body, limbs) => {
                match self.build_hybrid(sender, pos, head, body, limbs) {
                    Ok(finished_on) => CommandOutcome::BuildStarted { finished_on },
                    Err(e) => CommandOutcome::BuildRejected(e),
                }
            },
        }
    }

    /// One simulation tick of the core: apply the next waypoint of the
    /// in-flight move, then reconcile every player's replica with the
    /// world so that fresh ground is revealed and lost ground fogs
    /// over. Returns the genome notifications of the applied step.
    pub fn tick(&mut self) -> (events: Vec<GenomeStatusChange>)
        requires
            old(self).wf(),
        ensures
            final(self).wf(),
            spec_advance_core(*old(self), *final(self), events@),
            final(self).replicas@.len() == old(self).replicas@.len(),
            forall|k: int|
                0 <= k < old(self).replicas@.len() ==> spec_replica_reconciled(
                    old(self).replicas@[k],
                    #[trigger] final(self).replicas@[k],
                    old(self).auth_map,
                    final(self).units@,
                    old(self).config,
                ),
    {
        let events = self.advance_pending_move();
        let ghost mid = *self;
        let mut k: usize = 0;
        while k < self.replicas.len()
            invariant
                k <= self.replicas@.len(),
                mid.wf(),
                self.config == mid.config,
                self.auth_map == mid.auth_map,
                self.units == mid.units,
                self.next_unit_id == mid.next_unit_id,
                self.turn_tracker == mid.turn_tracker,
                self.pending_move == mid.pending_move,
                self.genomes == mid.genomes,
                self.replicas@.len() == mid.replicas@.len(),
                forall|j: int| k <= j < mid.replicas@.len() ==> self.replicas@[j] == #[trigger] mid.replicas@[j],
                forall|j: int|
                    0 <= j < k ==> spec_replica_reconciled(
                        mid.replicas@[j],
                        #[trigger] self.replicas@[j],
                        mid.auth_map,
                        mid.units@,
                        mid.config,
                    ),
            decreases self.replicas@.len() - k,
        {
            let mut entry = PlayerReplica { key: 0, map: TileMap { tiles: Vec::new() } };
            self.replicas.set_and_swap(k, &mut entry);
            proof {
                assert(entry == mid.replicas@[k as int]);
                assert(mid.replicas@[k as int].map.wf(mid.config));
            }
            let key = entry.key;
            crate::replica::reconcile_replica(
                &mut entry.map,
                &self.config,
                &self.auth_map,
                &self.units,
                key,
            );
            self.replicas.set_and_swap(k, &mut entry);
            k = k + 1;
        }
        proof {
            assert forall|p: int| 0 <= p < self.turn_tracker.spec_players().len() implies
                spec_has_replica(
                self.replicas@,
                #[trigger] self.turn_tracker.spec_players()[p],
            ) by {
                let key = self.turn_tracker.spec_players()[p];
                assert(spec_has_replica(mid.replicas@, key));
                let w = choose|w: int|
                    0 <= w < mid.replicas@.len() && (#[trigger] mid.replicas@[w]).key == key;
                assert(self.replicas@[w].key == key);
            }
            assert forall|i: int, j: int| 0 <= i < j < self.replicas@.len() implies (
            #[trigger] self.replicas@[i]).key != (#[trigger] self.replicas@[j]).key by {
                assert(self.replicas@[i].key == mid.replicas@[i].key);
                assert(self.replicas@[j].key == mid.replicas@[j].key);
            }
        }
        events
    }
}

/// With distinct replica keys, the entry found for a player is the
/// replica the specification names.
proof fn lemma_unique_replica_entry(replicas: Seq<PlayerReplica>, player: PlayerKey, r: int)
    requires
        forall|i: int, j: int|
            0 <= i < j < replicas.len() ==> (#[trigger] replicas[i]).key != (
            #[trigger] replicas[j]).key,
        0 <= r < replicas.len(),
        replicas[r].key == player,
    ensures
        spec_replica_map(replicas, player) == replicas[r].map,
{
    assert(spec_has_replica(replicas, player));
    let w = choose|i: int| 0 <= i < replicas.len() && (#[trigger] replicas[i]).key == player;
    if w != r {
        if w < r {
            assert(replicas[w].key != replicas[r].key);
        } else {
            assert(replicas[r].key != replicas[w].key);
        }
        assert(false);
    }
}

impl MatchState {
    /// Seed the active-play phase: one authoritative map, the fixed
    /// player rotation starting at the first connected player, an
    /// all-fog replica and the baseline Deer genome for every player,
    /// no units and no move in flight.
    pub fn new(config: MapConfig, auth_map: TileMap, players: Vec<PlayerKey>) -> (state:
        MatchState)
        requires
            config.wf(),
            config.spec_tile_count() <= usize::MAX,
            auth_map.wf(config),
            crate::world::spec_no_fog(auth_map, config),
            players@.len() > 0,
            forall|i: int, j: int|
                0 <= i < j < players@.len() ==> players@[i] != players@[j],
        ensures
            state.wf(),
            state.config == config,
            state.auth_map == auth_map,
            state.units@.len() == 0,
            state.next_unit_id == 0,
            state.pending_move is None,
            state.turn_tracker.spec_players() == players@,
            state.turn_tracker.spec_player() == players@[0],
            state.turn_tracker.spec_turn_number() == 1,
            state.replicas@.len() == players@.len(),
            forall|k: int|
                0 <= k < players@.len() ==> (#[trigger] state.replicas@[k]).key == players@[k]
                    && forall|i: int|
                    0 <= i < state.replicas@[k].map.tiles@.len()
                        ==> #[trigger] state.replicas@[k].map.tiles@[i]
                        == crate::tile::spec_fog_tile(),
            state.genomes@.len() == players@.len(),
            forall|k: int|
                0 <= k < players@.len() ==> (#[trigger] state.genomes@[k]).key == players@[k]
                    && state.genomes@[k].genomes@ == seq![AnimalKind::Deer],
    {
        let mut replicas: Vec<PlayerReplica> = Vec::new();
        let mut genomes: Vec<PlayerGenomes> = Vec::new();
        let mut k: usize = 0;
        while k < players.len()
            invariant
                k <= players@.len(),
                config.wf(),
                config.spec_tile_count() <= usize::MAX,
                replicas@.len() == k,
                genomes@.len() == k,
                forall|j: int|
                    0 <= j < k ==> (#[trigger] replicas@[j]).key == players@[j]
                        && replicas@[j].map.wf(config) && forall|i: int|
                        0 <= i < replicas@[j].map.tiles@.len()
                            ==> #[trigger] replicas@[j].map.tiles@[i]
                            == crate::tile::spec_fog_tile(),
                forall|j: int|
                    0 <= j < k ==> (#[trigger] genomes@[j]).key == players@[j]
                        && genomes@[j].genomes@ == seq![AnimalKind::Deer],
            decreases players@.len() - k,
        {
            let key = players[k];
            replicas.push(PlayerReplica { key, map: TileMap::new_fog(&config) });
            let mut starting: Vec<AnimalKind> = Vec::new();
            starting.push(AnimalKind::Deer);
            proof {
                assert(starting@ =~= seq![AnimalKind::Deer]);
            }
            genomes.push(PlayerGenomes { key, genomes: starting });
            k = k + 1;
        }
        let ghost pseq = players@;
        let tracker = TurnTracker::new(players);
        let state = MatchState {
            config,
            auth_map,
            units: Vec::new(),
            next_unit_id: 0,
            turn_tracker: tracker,
            pending_move: None,
            replicas,
            genomes,
        };
        proof {
            assert forall|p: int| 0 <= p < state.turn_tracker.spec_players().len() implies
                spec_has_replica(
                state.replicas@,
                #[trigger] state.turn_tracker.spec_players()[p],
            ) && spec_has_genomes(state.genomes@, state.turn_tracker.spec_players()[p]) by {
                assert(state.replicas@[p].key == pseq[p]);
                assert(state.genomes@[p].key == pseq[p]);
            }
            assert forall|i: int, j: int| 0 <= i < j < state.replicas@.len() implies (
            #[trigger] state.replicas@[i]).key != (#[trigger] state.replicas@[j]).key by {
                assert(pseq[i] != pseq[j]);
            }
            assert forall|i: int, j: int| 0 <= i < j < state.genomes@.len() implies (
            #[trigger] state.genomes@[i]).key != (#[trigger] state.genomes@[j]).key by {
                assert(pseq[i] != pseq[j]);
            }
        }
        state
    }

    /// Place one starting Deer unit for a player: full health and the
    /// Deer movement budget, standing on the ground layer.
    pub fn spawn_starting_unit(&mut self, owner: PlayerKey, pos: AxialCoordinates)
        requires
            old(self).wf(),
            pos.column_q < old(self).config.size_width,
            pos.row_r < old(self).config.size_height,
            old(self).next_unit_id < u64::MAX,
        ensures
            final(self).wf(),
            final(self).units@.len() == old(self).units@.len() + 1,
            forall|j: int|
                0 <= j < old(self).units@.len() ==> #[trigger] final(self).units@[j] == old(
                    self,
                ).units@[j],
            final(self).units@.last().id == old(self).next_unit_id,
            final(self).units@.last().owner == owner,
            final(self).units@.last().position == pos,
            final(self).units@.last().layer == 0,
            final(self).units@.last().current_health == crate::genome::spec_animal_type(
                AnimalKind::Deer,
            ).body.health,
            final(self).units@.last().stamina_remaining == crate::genome::spec_animal_type(
                AnimalKind::Deer,
            ).limbs.terrain_a.tiles_per_turn,
            final(self).units@.last().hybrid_type.spec_head_type() == AnimalKind::Deer,
            final(self).units@.last().hybrid_type.spec_body_type() == AnimalKind::Deer,
            final(self).units@.last().hybrid_type.spec_limbs_type() == AnimalKind::Deer,
            final(self).units@.last().hybrid_type.spec_head() == crate::genome::spec_animal_type(
                AnimalKind::Deer,
            ).head,
            final(self).units@.last().hybrid_type.spec_body() == crate::genome::spec_animal_type(
                AnimalKind::Deer,
            ).body,
            final(self).units@.last().hybrid_type.spec_limbs() == crate::genome::spec_animal_type(
                AnimalKind::Deer,
            ).limbs,
            final(self).next_unit_id == old(self).next_unit_id + 1,
            final(self).config == old(self).config,
            final(self).auth_map == old(self).auth_map,
            final(self).turn_tracker == old(self).turn_tracker,
            final(self).pending_move == old(self).pending_move,
            final(self).replicas == old(self).replicas,
            final(self).genomes == old(self).genomes,
    {
        let hybrid = Hybrid::from_kinds(AnimalKind::Deer, AnimalKind::Deer, AnimalKind::Deer);
        let unit = Unit {
            id: self.next_unit_id,
            owner,
            position: pos,
            layer: 0,
            hybrid_type: hybrid,
            current_health: hybrid.body().health,
            stamina_remaining: hybrid.limbs().terrain_a.tiles_per_turn as u16,
        };
        self.units.push(unit);
        self.next_unit_id = self.next_unit_id + 1;
        proof {
            let pre = *old(self);
            assert forall|i: int| 0 <= i < self.units@.len() implies (#[trigger] self.units@[i]).wf(
                self.config,
            ) by {
                if i < pre.units@.len() {
                    assert(self.units@[i] == pre.units@[i]);
                    assert(pre.units@[i].wf(pre.config));
                }
            }
            assert forall|i: int, j: int| 0 <= i < j < self.units@.len() implies (
            #[trigger] self.units@[i]).id != (#[trigger] self.units@[j]).id by {
                if j < pre.units@.len() {
                    assert(pre.units@[i].id != pre.units@[j].id);
                } else {
                    assert(pre.units@[i].id < pre.next_unit_id);
                }
            }
            assert forall|i: int| 0 <= i < self.units@.len() implies (#[trigger] self.units@[i]).id
                < self.next_unit_id by {
                if i < pre.units@.len() {
                    assert(pre.units@[i].id < pre.next_unit_id);
                }
            }
        }
    }
}

/// Privacy boundary, composed over a tick: at any coordinate a player
/// does not observe, a reconciled replica shows fog — unobserved
/// authoritative state never reaches a replica.
pub proof fn lemma_reconciled_replica_fogs_unobserved(
    old_rep: PlayerReplica,
    new_rep: PlayerReplica,
    auth: TileMap,
    units: Seq<Unit>,
    cfg: MapConfig,
    q: int,
    r: int,
    z: int,
)
    requires
        spec_replica_reconciled(old_rep, new_rep, auth, units, cfg),
        spec_in_bounds(cfg, q, r, z),
        !crate::visibility::spec_visible(units, old_rep.key, cfg, q, r),
    ensures
        new_rep.map.spec_tile(cfg, q, r, z).tile_type == crate::tile::TileType::Fog,
{
    crate::replica::lemma_unseen_is_fog(
        auth.spec_tile(cfg, q, r, z),
        old_rep.map.spec_tile(cfg, q, r, z),
    );
}

/// Observation keeps ground revealed: at any coordinate a player does
/// observe, a reconciled replica holds the authoritative tile
/// verbatim — and since the authoritative map never shows fog, the
/// replica cell is not fog either. A revealed cell thus only changes
/// when it is re-observed with a different authoritative value or
/// when observation is lost, never spontaneously.
pub proof fn lemma_reconciled_replica_tracks_observed(
    old_rep: PlayerReplica,
    new_rep: PlayerReplica,
    auth: TileMap,
    units: Seq<Unit>,
    cfg: MapConfig,
    q: int,
    r: int,
    z: int,
)
    requires
        spec_replica_reconciled(old_rep, new_rep, auth, units, cfg),
        spec_in_bounds(cfg, q, r, z),
        crate::visibility::spec_visible(units, old_rep.key, cfg, q, r),
        auth.wf(cfg),
        crate::world::spec_no_fog(auth, cfg),
    ensures
        new_rep.map.spec_tile(cfg, q, r, z) == auth.spec_tile(cfg, q, r, z),
        new_rep.map.spec_tile(cfg, q, r, z).tile_type != crate::tile::TileType::Fog,
{
    crate::map::lemma_tile_index_bounds(cfg.size_width as int, cfg.size_height as int, q, r, z);
    crate::replica::lemma_seen_tracks_authority(
        auth.spec_tile(cfg, q, r, z),
        old_rep.map.spec_tile(cfg, q, r, z),
    );
}

} // verus!
