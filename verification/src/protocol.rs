//! The payloads the core exchanges with its transport: inbound player
//! commands and outbound notifications. Only their semantics live
//! here; the wire encoding belongs to the transport.

use crate::genome::AnimalKind;
use crate::hex::AxialCoordinates;
use crate::{PlayerKey, UnitId};
use vstd::prelude::*;

verus! {

/// The logical message channels between client and server.
#[derive(Clone, Copy, Debug, PartialEq, Eq, Hash, Structural)]
pub enum Channels {
    ClientKeepAlive,
    PlayerInput,
    WaitingOnPlayers,
    Countdown,
    GameNotification,
}

/// A heartbeat with no content.
#[derive(Clone, Copy, Debug, PartialEq, Eq, Structural)]
pub struct ClientKeepAlive;

impl ClientKeepAlive {
    pub fn new() -> ClientKeepAlive {
        ClientKeepAlive
    }
}

/// The credentials a connecting client presents.
#[derive(Clone, Debug)]
pub struct Identification {
    pub username: String,
    pub room_password: String,
}

/// How many more connections the lobby is waiting for.
#[derive(Clone, Copy, Debug, PartialEq, Eq, Structural)]
pub struct WaitingOnPlayers {
    pub num_waiting_for: u8,
}

/// One tick of the pre-match countdown.
#[derive(Clone, Copy, Debug, PartialEq, Eq, Structural)]
pub struct Countdown {
    pub secs_left: u8,
}

impl Countdown {
    pub fn new() -> (c: Countdown)
        ensures
            c.secs_left == 10,
    {
        Countdown { secs_left: 10 }
    }
}

/// The colour identity a player is known by on screen.
#[derive(Clone, Copy, Debug, PartialEq, Eq, Hash, Structural)]
pub enum PlayerId {
    Red,
    Orange,
    Yellow,
    Green,
    Blue,
    Purple,
}

/// The most players one match accepts.
pub const MAX_NUM_PLAYERS: usize = 6;

/// Whether a genome became available to a player or was taken away.
#[derive(Clone, Copy, Debug, PartialEq, Eq, Hash, Structural)]
pub enum LockedStatus {
    Unlocked,
    Locked,
}

/// A change in which genomes a player may build from.
#[derive(Clone, Copy, Debug, PartialEq, Eq, Structural)]
pub struct GenomeStatusChange {
    pub player: PlayerKey,
    pub species: AnimalKind,
    pub status: LockedStatus,
}

impl GenomeStatusChange {
    pub fn new(player: PlayerKey, species: AnimalKind, status: LockedStatus) -> (n:
        GenomeStatusChange)
        ensures
            n.player == player,
            n.species == species,
            n.status == status,
    {
        GenomeStatusChange { player, species, status }
    }
}

/// Whose turn it is, as one recipient sees it.
#[derive(Clone, Debug)]
pub enum WhoseTurn {
    Yours { turn_number: u16 },
    Player { username: String, id: PlayerId, turn_number: u16 },
}

impl WhoseTurn {
    /// The turn number, whoever holds the turn.
    pub fn turn_number(&self) -> (n: u16)
        ensures
            n == self.spec_turn_number(),
    {
        match self {
            WhoseTurn::Yours { turn_number } => *turn_number,
            WhoseTurn::Player { turn_number, .. } => *turn_number,
        }
    }

    /// The turn number, whoever holds the turn.
    pub open spec fn spec_turn_number(&self) -> u16 {
        match self {
            WhoseTurn::Yours { turn_number } => *turn_number,
            WhoseTurn::Player { turn_number, .. } => *turn_number,
        }
    }

    /// Render a turn holder for one recipient: their own turn reads
    /// `Yours`, anyone else's carries the holder's name and colour.
    pub fn for_recipient(
        recipient: PlayerKey,
        holder: PlayerKey,
        holder_name: String,
        holder_id: PlayerId,
        turn_number: u16,
    ) -> (wt: WhoseTurn)
        ensures
            recipient == holder ==> wt == (WhoseTurn::Yours { turn_number }),
            recipient != holder ==> wt == (WhoseTurn::Player {
                username: holder_name,
                id: holder_id,
                turn_number,
            }),
    {
        if recipient == holder {
            WhoseTurn::Yours { turn_number }
        } else {
            WhoseTurn::Player { username: holder_name, id: holder_id, turn_number }
        }
    }
}

/// The first turn notification of a match.
#[derive(Clone, Debug)]
pub struct GameStartNotification {
    pub whose_turn: WhoseTurn,
}

/// A turn advanced.
#[derive(Clone, Debug)]
pub struct TurnChangeNotification {
    pub whose_turn: WhoseTurn,
}

/// One inbound player command.
#[derive(Clone, Copy, Debug, PartialEq, Eq, Structural)]
pub enum PlayerInputVariant {
    /// Walk the referenced unit to the target coordinate.
    MoveEntity(UnitId, AxialCoordinates),
    /// Pass the turn on.
    EndTurn,
    /// Start building a hybrid with the given head, body and limb
    /// genomes at a facility the player guards.
    BuildHybrid(AxialCoordinates, AnimalKind, AnimalKind, AnimalKind),
}

/// Errors a tile-claim request can be answered with.
#[derive(Clone, Copy, Debug, PartialEq, Eq, Structural)]
pub enum ClaimTileError {
    /// It must be your turn to claim a tile.
    ItIsNotYourTurn,
    /// Claimed tiles must be adjacent to already claimed tiles.
    ClaimedTileNotAdjacent,
}

} // verus!
