//! A verified core for a small vertical shooter.
//!
//! The crate holds the rules of the game and draws nothing: the shapes and
//! their collision test, the spawner, the per-frame simulation, the
//! scoring, the four-state machine that ties them together, and the list
//! of what a host has to draw. Positions, sizes, speeds and times are
//! integers in fixed units (see [`units`]), so that every rule is an exact
//! statement.
//!
//! A host program polls its keyboard, measures the frame time, hands both to
//! [`game::Game::frame`], carries out the [`game::Action`] that comes back and
//! draws what [`scene::draw_list`] lists.

pub mod units;
pub mod shape;
pub mod viewport;
pub mod spawner;
pub mod state;
pub mod input;
pub mod motion;
pub mod collision;
pub mod retire;
pub mod game;
pub mod highscore;
pub mod laws;
pub mod scene;
