//! From the keyboard to what the player means.
//!
//! The arrow keys act for as long as they are held. Space and Escape act
//! once per press, and what they mean depends on the state of the game.

use vstd::prelude::*;
use crate::state::GameState;

verus! {

/// The keyboard as one frame sees it.
#[derive(Clone, Copy, Debug, PartialEq, Eq)]
pub struct Keys {
    /// The left arrow is held.
    pub left: bool,
    /// The right arrow is held.
    pub right: bool,
    /// The up arrow is held.
    pub up: bool,
    /// The down arrow is held.
    pub down: bool,
    /// Space went down during this frame.
    pub space: bool,
    /// Escape went down during this frame.
    pub escape: bool,
}

/// What the player asks for in one frame.
#[derive(Clone, Copy, Debug, PartialEq, Eq)]
pub struct Intents {
    pub move_left: bool,
    pub move_right: bool,
    pub move_up: bool,
    pub move_down: bool,
    /// Shoot a projectile.
    pub fire: bool,
    /// Leave a menu, a pause or a game-over screen for what follows it.
    pub confirm: bool,
    /// Suspend the run.
    pub pause: bool,
    /// Leave the program.
    pub exit: bool,
}

/// The intents that a keyboard carries in a given state. The arrows steer
/// and Space fires only while playing; elsewhere Space confirms. Escape
/// pauses a run and, in the main menu, leaves the program. Every other
/// combination means nothing.
pub open spec fn intents_of(state: GameState, keys: Keys) -> Intents {
    let playing = state == GameState::Playing;
    Intents {
        move_left: playing && keys.left,
        move_right: playing && keys.right,
        move_up: playing && keys.up,
        move_down: playing && keys.down,
        fire: playing && keys.space,
        confirm: !playing && keys.space,
        pause: playing && keys.escape,
        exit: state == GameState::MainMenu && keys.escape,
    }
}

/// Reads the player's intents off the keyboard.
pub fn map_input(state: GameState, keys: Keys) -> (intents: Intents)
    ensures
        intents == intents_of(state, keys),
{
    let playing = state == GameState::Playing;
    Intents {
        move_left: playing && keys.left,
        move_right: playing && keys.right,
        move_up: playing && keys.up,
        move_down: playing && keys.down,
        fire: playing && keys.space,
        confirm: !playing && keys.space,
        pause: playing && keys.escape,
        exit: state == GameState::MainMenu && keys.escape,
    }
}

} // verus!
