//! The client's top-level game state machine.

use vstd::prelude::*;

verus! {

/// The screen/phase the client is in.
#[derive(Clone, Copy, Debug, PartialEq, Eq, Structural)]
pub enum GameState {
    MainMenu,
    Connecting,
    Connected,
    Playing,
    Paused,
}

/// What Escape asks for while playing: the pause menu.
pub open spec fn escape_spec(escape_just_pressed: bool) -> Option<GameState> {
    if escape_just_pressed { Some(GameState::Paused) } else { None }
}

/// What Escape asks for in the pause menu: back to play.
pub open spec fn resume_spec(escape_just_pressed: bool) -> Option<GameState> {
    if escape_just_pressed { Some(GameState::Playing) } else { None }
}

/// Escape while playing opens the pause menu.
pub fn handle_escape_key(escape_just_pressed: bool) -> (next: Option<GameState>)
    ensures
        next == escape_spec(escape_just_pressed),
{
    if escape_just_pressed {
        Some(GameState::Paused)
    } else {
        None
    }
}

/// Escape in the pause menu resumes play.
pub fn handle_resume_key(escape_just_pressed: bool) -> (next: Option<GameState>)
    ensures
        next == resume_spec(escape_just_pressed),
{
    if escape_just_pressed {
        Some(GameState::Playing)
    } else {
        None
    }
}

/// Escape pauses a running game and a second Escape resumes it.
pub proof fn lemma_escape_pauses_and_resumes()
    ensures
        escape_spec(true) == Some(GameState::Paused),
        resume_spec(true) == Some(GameState::Playing),
        escape_spec(false) is None && resume_spec(false) is None,
{
}

/// What the client's connection events ask for: a new connection starts
/// play, a disconnection (checked after) returns to the main menu.
pub open spec fn connection_spec(new_connections: usize, new_disconnections: usize) -> Option<GameState> {
    if new_disconnections > 0 {
        Some(GameState::MainMenu)
    } else if new_connections > 0 {
        Some(GameState::Playing)
    } else {
        None
    }
}

/// Follows the client's connection status, given how many connection and
/// disconnection events arrived this frame.
pub fn check_connection(new_connections: usize, new_disconnections: usize) -> (next: Option<GameState>)
    ensures
        next == connection_spec(new_connections, new_disconnections),
{
    if new_disconnections > 0 {
        Some(GameState::MainMenu)
    } else if new_connections > 0 {
        Some(GameState::Playing)
    } else {
        None
    }
}

/// A disconnection always returns to the main menu, even when a connection
/// arrived in the same frame; a connection alone starts play; with no event
/// the state stays.
pub proof fn lemma_connection_events_decide_the_screen(new_connections: usize, new_disconnections: usize)
    ensures
        new_disconnections > 0 ==> connection_spec(new_connections, new_disconnections) == Some(GameState::MainMenu),
        new_disconnections == 0 && new_connections > 0 ==> connection_spec(new_connections, new_disconnections) == Some(GameState::Playing),
        new_disconnections == 0 && new_connections == 0 ==> connection_spec(new_connections, new_disconnections) is None,
{
}

} // verus!
