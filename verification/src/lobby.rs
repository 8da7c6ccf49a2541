//! Lobby decisions: connection authorization and the pre-match
//! countdown. The transport delivers credentials and tick events; the
//! decisions themselves are made here.

use crate::assoc::UsernameKeyAssociation;
use vstd::prelude::*;

verus! {

/// The answer to one connection attempt.
#[derive(Clone, Copy, Debug, PartialEq, Eq, Structural)]
pub enum AuthorizationDecision {
    Accept,
    /// The room password did not match.
    RejectWrongPassword,
    /// The username is already connected.
    RejectDuplicateUsername,
    /// The lobby already holds more players than the match allows.
    RejectLobbyFull,
}

/// Decide one connection attempt: the password must match, the
/// username must be free, and the lobby must have room, checked in
/// that order.
pub fn authorize(
    username: &str,
    password_given: &str,
    room_password: &str,
    assoc: &UsernameKeyAssociation,
    users_count: usize,
    num_players: usize,
) -> (decision: AuthorizationDecision)
    ensures
        decision == AuthorizationDecision::RejectWrongPassword <==> password_given@
            != room_password@,
        decision == AuthorizationDecision::RejectDuplicateUsername <==> (password_given@
            == room_password@ && assoc.spec_has_name(username@)),
        decision == AuthorizationDecision::RejectLobbyFull <==> (password_given@ == room_password@
            && !assoc.spec_has_name(username@) && users_count > num_players),
        decision == AuthorizationDecision::Accept <==> (password_given@ == room_password@
            && !assoc.spec_has_name(username@) && users_count <= num_players),
{
    let given: String = password_given.to_string();
    let expected: String = room_password.to_string();
    if given != expected {
        return AuthorizationDecision::RejectWrongPassword;
    }
    match assoc.get_from_name(username) {
        Some(_) => {
            return AuthorizationDecision::RejectDuplicateUsername;
        },
        None => {},
    }
    if users_count > num_players {
        return AuthorizationDecision::RejectLobbyFull;
    }
    AuthorizationDecision::Accept
}

/// One second of the pre-match countdown has passed: the count drops
/// by one, and play begins when it reaches zero.
pub fn countdown_step(secs_left: u8) -> (next: (u8, bool))
    requires
        secs_left > 0,
    ensures
        next.0 == secs_left - 1,
        next.1 == (next.0 == 0),
{
    let remaining = secs_left - 1;
    (remaining, remaining == 0)
}

/// While waiting for connections: how many more players are needed, or
/// `None` once the lobby is exactly full and the countdown should
/// begin.
pub fn waiting_status(num_players: u8, users_count: usize) -> (status: Option<u8>)
    requires
        users_count <= num_players,
    ensures
        match status {
            Some(waiting) => users_count < num_players && waiting == num_players - users_count,
            None => users_count == num_players,
        },
{
    if users_count == num_players as usize {
        None
    } else {
        Some(num_players - users_count as u8)
    }
}

/// The phases a match moves through: waiting for connections, the
/// pre-match countdown, then active play.
#[derive(Clone, Copy, Debug, PartialEq, Eq, Hash, Structural)]
pub enum GameState {
    WaitingForConnections,
    Countdown,
    Playing,
}

/// The phase transition: a full lobby starts the countdown, a finished
/// countdown starts play, and play never leaves itself.
pub fn game_state_step(state: GameState, lobby_full: bool, countdown_finished: bool) -> (next:
    GameState)
    ensures
        state == GameState::WaitingForConnections ==> next == if lobby_full {
            GameState::Countdown
        } else {
            GameState::WaitingForConnections
        },
        state == GameState::Countdown ==> next == if countdown_finished {
            GameState::Playing
        } else {
            GameState::Countdown
        },
        state == GameState::Playing ==> next == GameState::Playing,
{
    match state {
        GameState::WaitingForConnections => {
            if lobby_full {
                GameState::Countdown
            } else {
                GameState::WaitingForConnections
            }
        },
        GameState::Countdown => {
            if countdown_finished {
                GameState::Playing
            } else {
                GameState::Countdown
            }
        },
        GameState::Playing => GameState::Playing,
    }
}

} // verus!
