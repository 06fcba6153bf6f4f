//! What holds of the game whatever the player does and whatever the spawner
//! lets in.
//!
//! Each law speaks of one frame that starts from a well-formed game.
//! `Game::new` makes such a game and every frame leaves one, so each law
//! holds between any two frames of any run.

use vstd::prelude::*;
use crate::collision::{credited, lemma_no_hits_no_gain, raised, total_gain, total_hits};
use crate::game::{
    frame_action, framed, initial, lemma_framed_wf, obstacle_in_place, projectile_in_place, Action,
    GameView,
};
use crate::input::Keys;
use crate::motion::{
    at_rest, fallen, risen, shot_from, MUZZLE_OFFSET, PROJECTILE_SIZE, SHIP_SPEED,
};
use crate::retire::{obstacle_gone, projectile_gone};
use crate::shape::Shape;
use crate::spawner::fresh_obstacle;
use crate::state::GameState;
use crate::units::lemma_displacement_within_reach;
use crate::viewport::Viewport;

verus! {

/// What one frame is given: the keyboard, the elapsed time, the viewport,
/// the reports of the emitters and what the spawner lets in.
pub struct FrameInput {
    pub keys: Keys,
    pub dt: u32,
    pub viewport: Viewport,
    pub emitting: Seq<bool>,
    pub spawned: Option<Shape>,
}

impl FrameInput {
    /// An input that a frame can get: a well-formed viewport, and from the
    /// spawner nothing or a fresh obstacle.
    pub open spec fn wf(self) -> bool {
        &&& self.viewport.wf()
        &&& self.spawned matches Some(obstacle) ==> fresh_obstacle(obstacle, self.viewport)
    }
}

/// The game after a sequence of frames, one per input.
pub open spec fn after_frames(start: GameView, inputs: Seq<FrameInput>) -> GameView
    decreases inputs.len(),
{
    if inputs.len() == 0 {
        start
    } else {
        let input = inputs.last();
        framed(
            after_frames(start, inputs.drop_last()),
            input.keys,
            input.dt,
            input.viewport,
            input.emitting,
            input.spawned,
        )
    }
}

/// Every game that can be reached from a new game is well formed, whatever
/// the frames were that led to it.
pub proof fn law_reachable_games_are_well_formed(
    high_score: u32,
    viewport: Viewport,
    inputs: Seq<FrameInput>,
)
    requires
        viewport.wf(),
        forall|i: int| 0 <= i < inputs.len() ==> (#[trigger] inputs[i]).wf(),
    ensures
        after_frames(initial(high_score, viewport), inputs).wf(),
    decreases inputs.len(),
{
    if inputs.len() > 0 {
        let input = inputs.last();
        law_reachable_games_are_well_formed(high_score, viewport, inputs.drop_last());
        assert(input.wf());
        lemma_framed_wf(
            after_frames(initial(high_score, viewport), inputs.drop_last()),
            input.keys,
            input.dt,
            input.viewport,
            input.emitting,
            input.spawned,
        );
    }
}

/// Whatever the frames, a pause keeps the field as it is: as long as the
/// game is paused and Space is not pressed, nothing but the state can have
/// changed, and the state has not.
pub proof fn law_pause_keeps_the_field(start: GameView, inputs: Seq<FrameInput>)
    requires
        start.state == GameState::Paused,
        forall|i: int| 0 <= i < inputs.len() ==> !(#[trigger] inputs[i]).keys.space,
    ensures
        after_frames(start, inputs) == start,
    decreases inputs.len(),
{
    if inputs.len() > 0 {
        law_pause_keeps_the_field(start, inputs.drop_last());
        assert(!inputs[inputs.len() - 1].keys.space);
    }
}

/// The collision pass never leaves the score above the high score, if it
/// did not find it there.
pub proof fn law_collisions_keep_score_within_high_score(
    score: u32,
    high_score: u32,
    obstacles: Seq<Shape>,
    projectiles: Seq<Shape>,
)
    requires
        score <= high_score,
    ensures
        credited(score, total_gain(obstacles, projectiles)) <= raised(
            high_score,
            credited(score, total_gain(obstacles, projectiles)),
            total_hits(obstacles, projectiles),
        ),
{
    if total_hits(obstacles, projectiles) == 0 {
        lemma_no_hits_no_gain(obstacles, projectiles);
    }
}

/// After any frame the score is at most the high score.
pub proof fn law_score_within_high_score(
    game: GameView,
    keys: Keys,
    dt: u32,
    viewport: Viewport,
    emitting: Seq<bool>,
    spawned: Option<Shape>,
)
    requires
        game.wf(),
        viewport.wf(),
        spawned matches Some(obstacle) ==> fresh_obstacle(obstacle, viewport),
    ensures
        framed(game, keys, dt, viewport, emitting, spawned).score <= framed(
            game,
            keys,
            dt,
            viewport,
            emitting,
            spawned,
        ).high_score,
{
    lemma_framed_wf(game, keys, dt, viewport, emitting, spawned);
}

/// The high score never falls.
pub proof fn law_high_score_never_falls(
    game: GameView,
    keys: Keys,
    dt: u32,
    viewport: Viewport,
    emitting: Seq<bool>,
    spawned: Option<Shape>,
)
    ensures
        framed(game, keys, dt, viewport, emitting, spawned).high_score >= game.high_score,
{
}

/// After any frame every obstacle lies between the line on which obstacles
/// enter and the line below the viewport past which they are removed.
pub proof fn law_obstacles_within_band(
    game: GameView,
    keys: Keys,
    dt: u32,
    viewport: Viewport,
    emitting: Seq<bool>,
    spawned: Option<Shape>,
)
    requires
        game.wf(),
        viewport.wf(),
        spawned matches Some(obstacle) ==> fresh_obstacle(obstacle, viewport),
    ensures
        ({
            let after = framed(game, keys, dt, viewport, emitting, spawned);
            forall|i: int|
                0 <= i < after.obstacles.len() ==> -(#[trigger] after.obstacles[i]).size
                    <= after.obstacles[i].y < after.viewport.height + after.obstacles[i].size
        }),
{
    lemma_framed_wf(game, keys, dt, viewport, emitting, spawned);
    let after = framed(game, keys, dt, viewport, emitting, spawned);
    assert forall|i: int| 0 <= i < after.obstacles.len() implies -(
    #[trigger] after.obstacles[i]).size <= after.obstacles[i].y < after.viewport.height
        + after.obstacles[i].size by {
        assert(obstacle_in_place(after.obstacles[i], after.viewport));
    }
}

/// After any frame no projectile lies wholly above the viewport.
pub proof fn law_projectiles_below_top(
    game: GameView,
    keys: Keys,
    dt: u32,
    viewport: Viewport,
    emitting: Seq<bool>,
    spawned: Option<Shape>,
)
    requires
        game.wf(),
        viewport.wf(),
        spawned matches Some(obstacle) ==> fresh_obstacle(obstacle, viewport),
    ensures
        ({
            let after = framed(game, keys, dt, viewport, emitting, spawned);
            forall|j: int|
                0 <= j < after.projectiles.len() ==> -(#[trigger] after.projectiles[j]).size < 2
                    * after.projectiles[j].y
        }),
{
    lemma_framed_wf(game, keys, dt, viewport, emitting, spawned);
    let after = framed(game, keys, dt, viewport, emitting, spawned);
    assert forall|j: int| 0 <= j < after.projectiles.len() implies -(
    #[trigger] after.projectiles[j]).size < 2 * after.projectiles[j].y by {
        assert(projectile_in_place(after.projectiles[j]));
    }
}

/// After any frame the ship is inside the viewport, borders included.
pub proof fn law_ship_within_viewport(
    game: GameView,
    keys: Keys,
    dt: u32,
    viewport: Viewport,
    emitting: Seq<bool>,
    spawned: Option<Shape>,
)
    requires
        game.wf(),
        viewport.wf(),
        spawned matches Some(obstacle) ==> fresh_obstacle(obstacle, viewport),
    ensures
        ({
            let after = framed(game, keys, dt, viewport, emitting, spawned);
            &&& 0 <= after.ship.x <= after.viewport.width
            &&& 0 <= after.ship.y <= after.viewport.height
        }),
{
    lemma_framed_wf(game, keys, dt, viewport, emitting, spawned);
}

/// Outside a run nothing moves: a frame changes at most the state, and so
/// leaves every list as it was. The one frame that is not meant is the one
/// that starts a run from the main menu, which clears the field.
pub proof fn law_idle_frames_move_nothing(
    game: GameView,
    keys: Keys,
    dt: u32,
    viewport: Viewport,
    emitting: Seq<bool>,
    spawned: Option<Shape>,
)
    requires
        game.state != GameState::Playing,
        !(game.state == GameState::MainMenu && keys.space && !keys.escape),
    ensures
        ({
            let after = framed(game, keys, dt, viewport, emitting, spawned);
            &&& after == GameView { state: after.state, ..game }
            &&& after.projectiles.len() == game.projectiles.len()
            &&& after.obstacles.len() == game.obstacles.len()
            &&& after.explosions.len() == game.explosions.len()
        }),
{
}

/// Starting a run from the main menu clears the three lists, sets the
/// score to zero and puts the ship in the centre of the viewport. The high
/// score stays.
pub proof fn law_start_clears_the_field(
    game: GameView,
    keys: Keys,
    dt: u32,
    viewport: Viewport,
    emitting: Seq<bool>,
    spawned: Option<Shape>,
)
    requires
        game.state == GameState::MainMenu,
        keys.space,
        !keys.escape,
        viewport.wf(),
    ensures
        ({
            let after = framed(game, keys, dt, viewport, emitting, spawned);
            &&& after.state == GameState::Playing
            &&& after.obstacles == Seq::<Shape>::empty()
            &&& after.projectiles == Seq::<Shape>::empty()
            &&& after.explosions.len() == 0
            &&& after.score == 0
            &&& after.ship.x == viewport.width / 2
            &&& after.ship.y == viewport.height / 2
            &&& after.high_score == game.high_score
        }),
{
}

/// The host is asked to store the high score exactly when a run has just
/// ended on a score that equals it, and it is asked to store that score.
pub proof fn law_saved_exactly_on_a_tie(
    game: GameView,
    keys: Keys,
    dt: u32,
    viewport: Viewport,
    emitting: Seq<bool>,
    spawned: Option<Shape>,
)
    ensures
        ({
            let after = framed(game, keys, dt, viewport, emitting, spawned);
            let action = frame_action(game, keys, after);
            let tie = game.state == GameState::Playing && after.state == GameState::GameOver
                && after.score == after.high_score;
            &&& tie <==> action is SaveHighScore
            &&& tie ==> action == Action::SaveHighScore(after.high_score)
        }),
{
}

/// The program ends exactly when Escape is pressed in the main menu, and
/// that frame changes nothing.
pub proof fn law_exit_only_from_main_menu(
    game: GameView,
    keys: Keys,
    dt: u32,
    viewport: Viewport,
    emitting: Seq<bool>,
    spawned: Option<Shape>,
)
    ensures
        ({
            let after = framed(game, keys, dt, viewport, emitting, spawned);
            let action = frame_action(game, keys, after);
            &&& action == Action::Exit <==> game.state == GameState::MainMenu && keys.escape
            &&& action == Action::Exit ==> after == game
        }),
{
}

/// A projectile fired from a ship at height `y` is gone once it has flown
/// for as long as it takes to cover `y`, less the muzzle offset, plus half
/// its own side.
pub proof fn law_projectile_leaves(ship: Shape, dt: u32)
    requires
        at_rest(ship),
        ship.speed == SHIP_SPEED,
        (2 * SHIP_SPEED) * dt >= ship.y - MUZZLE_OFFSET + PROJECTILE_SIZE / 2,
    ensures
        projectile_gone(risen(shot_from(ship), dt)),
{
    lemma_displacement_within_reach(2 * SHIP_SPEED as int, dt as int);
}

/// Rising for one time and then for another is rising for their sum.
pub proof fn law_rising_adds_up(projectile: Shape, first: u32, second: u32)
    requires
        at_rest(projectile),
        first + second <= u32::MAX,
    ensures
        risen(risen(projectile, first), second) == risen(projectile, (first + second) as u32),
{
    lemma_displacement_within_reach(projectile.speed as int, first as int);
    lemma_displacement_within_reach(projectile.speed as int, second as int);
    lemma_displacement_within_reach(projectile.speed as int, first + second);
    assert(projectile.speed * (first + second) == projectile.speed * first + projectile.speed
        * second) by (nonlinear_arith);
}

/// Falling for one time and then for another is falling for their sum.
pub proof fn law_falling_adds_up(obstacle: Shape, first: u32, second: u32)
    requires
        at_rest(obstacle),
        first + second <= u32::MAX,
    ensures
        fallen(fallen(obstacle, first), second) == fallen(obstacle, (first + second) as u32),
{
    lemma_displacement_within_reach(obstacle.speed as int, first as int);
    lemma_displacement_within_reach(obstacle.speed as int, second as int);
    lemma_displacement_within_reach(obstacle.speed as int, first + second);
    assert(obstacle.speed * (first + second) == obstacle.speed * first + obstacle.speed * second)
        by (nonlinear_arith);
}

/// An unmarked obstacle is gone after falling exactly when it has fallen
/// the whole way from where it was to the line one side below the viewport.
pub proof fn law_obstacle_clears(obstacle: Shape, dt: u32, viewport: Viewport)
    requires
        at_rest(obstacle),
        !obstacle.collided,
        viewport.wf(),
    ensures
        obstacle_gone(fallen(obstacle, dt), viewport) <==> obstacle.speed * dt >= viewport.height
            + obstacle.size - obstacle.y,
{
    lemma_displacement_within_reach(obstacle.speed as int, dt as int);
}

} // verus!
