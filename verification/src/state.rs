//! The four states of the game.

use vstd::prelude::*;

verus! {

/// Where the game stands between two frames.
#[derive(Clone, Copy, Debug, PartialEq, Eq, Structural)]
pub enum GameState {
    /// Waiting for the player to start a run. This is the initial state.
    MainMenu,
    /// A run is under way: the only state in which anything moves.
    Playing,
    /// A run is suspended and resumes where it stopped.
    Paused,
    /// The ship has hit an obstacle and the run is over.
    GameOver,
}

} // verus!
