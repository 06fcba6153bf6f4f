//! The game: its state between two frames and what one frame does to it.
//!
//! [`Game::frame`] is the whole of the game's logic. The host calls it once
//! per frame with what it saw (the keyboard, the elapsed time, the size of
//! the viewport, which emitters are still emitting) and carries out the
//! [`Action`] that comes back. Only a frame in the `Playing` state moves
//! anything.

use vstd::prelude::*;
use crate::collision::{
    blasts, credited, hits_any, lemma_no_hits_no_gain, marked_obstacles, marked_projectiles,
    raised, resolve_collisions, strikes, total_gain, total_hits, Explosion,
};
use crate::input::{intents_of, map_input, Intents, Keys};
use crate::motion::{
    advance_obstacles, advance_projectiles, all_fallen, all_risen, at_rest, drift, drifted, fire,
    held_in, hold_in, is_at_rest, shot_from, steer, steered, SHIP_SIZE, SHIP_SPEED,
};
use crate::retire::{
    lemma_filter_keeps, live_explosions, obstacle_gone, projectile_gone, retire_explosions,
    retire_obstacles, retire_projectiles, surviving_obstacles, surviving_projectiles,
};
use crate::shape::Shape;
use crate::spawner::{fresh_obstacle, spawn, spawn_outcome, spawnable};
use crate::state::GameState;
use crate::units::{lemma_displacement_within_reach, MAX_COORD};
use crate::viewport::Viewport;

verus! {

/// Everything the game remembers from one frame to the next.
#[derive(Clone, Debug, PartialEq, Eq)]
pub struct Game {
    pub state: GameState,
    pub ship: Shape,
    pub projectiles: Vec<Shape>,
    pub obstacles: Vec<Shape>,
    pub explosions: Vec<Explosion>,
    /// Points of the current run.
    pub score: u32,
    /// Best score of any run, this one included.
    pub high_score: u32,
    /// The viewport of the last frame that moved anything, or of the start.
    pub viewport: Viewport,
    /// Horizontal drift of the background, in units of 10^-8. It follows the
    /// steering and has no effect on the game.
    pub direction_modifier: i64,
}

/// The game as a mathematical value.
#[verifier::ext_equal]
pub struct GameView {
    pub state: GameState,
    pub ship: Shape,
    pub projectiles: Seq<Shape>,
    pub obstacles: Seq<Shape>,
    pub explosions: Seq<Explosion>,
    pub score: u32,
    pub high_score: u32,
    pub viewport: Viewport,
    pub direction_modifier: i64,
}

/// What the host has to do after a frame.
#[derive(Clone, Copy, Debug, PartialEq, Eq)]
pub enum Action {
    /// Nothing but to draw and go on.
    Continue,
    /// End the program, with success.
    Exit,
    /// Store this high score where the next start will find it.
    SaveHighScore(u32),
}

/// An obstacle in its place: at rest, not above the line on which obstacles
/// enter, and not wholly below the viewport.
pub open spec fn obstacle_in_place(obstacle: Shape, viewport: Viewport) -> bool {
    &&& at_rest(obstacle)
    &&& -obstacle.size <= obstacle.y < viewport.height + obstacle.size
}

/// A projectile in its place: at rest and not wholly above the viewport.
pub open spec fn projectile_in_place(projectile: Shape) -> bool {
    &&& at_rest(projectile)
    &&& -projectile.size < 2 * projectile.y
}

impl GameView {
    /// What holds of the game between any two frames.
    pub open spec fn wf(self) -> bool {
        &&& self.viewport.wf()
        &&& self.ship.wf()
        &&& self.ship.size == SHIP_SIZE
        &&& self.ship.speed == SHIP_SPEED
        &&& self.viewport.contains(self.ship.x as int, self.ship.y as int)
        &&& forall|i: int|
            0 <= i < self.obstacles.len() ==> obstacle_in_place(
                #[trigger] self.obstacles[i],
                self.viewport,
            )
        &&& forall|j: int|
            0 <= j < self.projectiles.len() ==> projectile_in_place(#[trigger] self.projectiles[j])
        &&& self.score <= self.high_score
    }
}

/// A new game: in the main menu, with nothing on the field, the ship in the
/// centre of the viewport, no points, and the high score it is given.
pub open spec fn initial(high_score: u32, viewport: Viewport) -> GameView {
    GameView {
        state: GameState::MainMenu,
        ship: Shape {
            size: SHIP_SIZE,
            speed: SHIP_SPEED,
            x: viewport.center_x() as i64,
            y: viewport.center_y() as i64,
            collided: false,
        },
        projectiles: Seq::empty(),
        obstacles: Seq::empty(),
        explosions: Seq::empty(),
        score: 0,
        high_score,
        viewport,
        direction_modifier: 0,
    }
}

/// The game at the start of a run: nothing on the field, the ship in the
/// centre of the viewport, no points. The high score stays.
pub open spec fn restarted(game: GameView, viewport: Viewport) -> GameView {
    GameView {
        state: GameState::Playing,
        ship: Shape { x: viewport.center_x() as i64, y: viewport.center_y() as i64, ..game.ship },
        projectiles: Seq::empty(),
        obstacles: Seq::empty(),
        explosions: Seq::empty(),
        score: 0,
        viewport,
        ..game
    }
}

/// The projectiles in flight once the ship has had its chance to fire.
pub open spec fn with_shot(projectiles: Seq<Shape>, ship: Shape, fire: bool) -> Seq<Shape> {
    if fire {
        projectiles.push(shot_from(ship))
    } else {
        projectiles
    }
}

/// The obstacles on the field once the spawner has had its turn.
pub open spec fn with_spawned(obstacles: Seq<Shape>, spawned: Option<Shape>) -> Seq<Shape> {
    match spawned {
        Some(obstacle) => obstacles.push(obstacle),
        None => obstacles,
    }
}

/// One step of the simulation, in this order: the ship is steered; it
/// fires from where it then is; it is held inside the viewport; the spawner
/// has its turn; obstacles fall and projectiles rise; collisions are
/// resolved; what is gone is retired; and the run ends if the ship touches
/// an obstacle that is left.
pub open spec fn simulated(
    game: GameView,
    intents: Intents,
    dt: u32,
    viewport: Viewport,
    emitting: Seq<bool>,
    spawned: Option<Shape>,
) -> GameView {
    let steered_ship = steered(game.ship, intents, dt);
    let ship = held_in(steered_ship, viewport);
    let projectiles = all_risen(with_shot(game.projectiles, steered_ship, intents.fire), dt);
    let obstacles = all_fallen(with_spawned(game.obstacles, spawned), dt);
    let score = credited(game.score, total_gain(obstacles, projectiles));
    let survivors = surviving_obstacles(marked_obstacles(obstacles, projectiles), viewport);
    GameView {
        state: if strikes(ship, survivors) {
            GameState::GameOver
        } else if intents.pause {
            GameState::Paused
        } else {
            game.state
        },
        ship,
        projectiles: surviving_projectiles(marked_projectiles(projectiles, obstacles)),
        obstacles: survivors,
        explosions: live_explosions(game.explosions, emitting) + blasts(obstacles, projectiles),
        score,
        high_score: raised(game.high_score, score, total_hits(obstacles, projectiles)),
        viewport,
        direction_modifier: drifted(game.direction_modifier, intents, dt),
    }
}

/// One frame. In the main menu, Escape leaves the program and Space starts
/// a run. A run is simulated. A pause ends, and a game-over screen gives
/// way to the main menu, when Space confirms. Nothing else changes
/// anything.
pub open spec fn framed(
    game: GameView,
    keys: Keys,
    dt: u32,
    viewport: Viewport,
    emitting: Seq<bool>,
    spawned: Option<Shape>,
) -> GameView {
    let intents = intents_of(game.state, keys);
    match game.state {
        GameState::MainMenu => if intents.exit {
            game
        } else if intents.confirm {
            restarted(game, viewport)
        } else {
            game
        },
        GameState::Playing => simulated(game, intents, dt, viewport, emitting, spawned),
        GameState::Paused => if intents.confirm {
            GameView { state: GameState::Playing, ..game }
        } else {
            game
        },
        GameState::GameOver => if intents.confirm {
            GameView { state: GameState::MainMenu, ..game }
        } else {
            game
        },
    }
}

/// What a run asks of the host when a step has left it in `after`: to store
/// the high score, if the run has just ended on a score that equals it.
pub open spec fn run_action(after: GameView) -> Action {
    if after.state == GameState::GameOver && after.score == after.high_score {
        Action::SaveHighScore(after.high_score)
    } else {
        Action::Continue
    }
}

/// What a frame asks of the host, given the game before and after it.
pub open spec fn frame_action(before: GameView, keys: Keys, after: GameView) -> Action {
    match before.state {
        GameState::MainMenu => if intents_of(before.state, keys).exit {
            Action::Exit
        } else {
            Action::Continue
        },
        GameState::Playing => run_action(after),
        _ => Action::Continue,
    }
}

/// A step of the simulation leaves the game well formed.
pub proof fn lemma_simulated_wf(
    game: GameView,
    intents: Intents,
    dt: u32,
    viewport: Viewport,
    emitting: Seq<bool>,
    spawned: Option<Shape>,
)
    requires
        game.wf(),
        viewport.wf(),
        spawned matches Some(obstacle) ==> fresh_obstacle(obstacle, viewport),
    ensures
        simulated(game, intents, dt, viewport, emitting, spawned).wf(),
{
    let after = simulated(game, intents, dt, viewport, emitting, spawned);
    let steered_ship = steered(game.ship, intents, dt);
    let projectiles = all_risen(with_shot(game.projectiles, steered_ship, intents.fire), dt);
    let obstacles = all_fallen(with_spawned(game.obstacles, spawned), dt);
    lemma_displacement_within_reach(SHIP_SPEED as int, dt as int);

    let marked_obs = marked_obstacles(obstacles, projectiles);
    let keep_obs = |o: Shape| !obstacle_gone(o, viewport);
    let fine_obs = |o: Shape| o.wf() && -MAX_COORD <= o.x <= MAX_COORD && -o.size <= o.y;
    assert forall|i: int| 0 <= i < marked_obs.len() implies fine_obs(#[trigger] marked_obs[i]) by {
        let entered = with_spawned(game.obstacles, spawned);
        let origin = entered[i];
        if i < game.obstacles.len() {
            assert(obstacle_in_place(game.obstacles[i], game.viewport));
        }
        lemma_displacement_within_reach(origin.speed as int, dt as int);
    }
    lemma_filter_keeps(marked_obs, keep_obs, fine_obs);
    assert forall|i: int| 0 <= i < after.obstacles.len() implies obstacle_in_place(
        #[trigger] after.obstacles[i],
        viewport,
    ) by {
        let o = after.obstacles[i];
        assert(fine_obs(o) && keep_obs(o));
    }

    let marked_pro = marked_projectiles(projectiles, obstacles);
    let keep_pro = |p: Shape| !projectile_gone(p);
    let fine_pro = |p: Shape| p.wf() && -MAX_COORD <= p.x <= MAX_COORD && p.y <= MAX_COORD;
    assert forall|j: int| 0 <= j < marked_pro.len() implies fine_pro(#[trigger] marked_pro[j]) by {
        let flying = with_shot(game.projectiles, steered_ship, intents.fire);
        let origin = flying[j];
        if j < game.projectiles.len() {
            assert(projectile_in_place(game.projectiles[j]));
        }
        lemma_displacement_within_reach(origin.speed as int, dt as int);
    }
    lemma_filter_keeps(marked_pro, keep_pro, fine_pro);
    assert forall|j: int| 0 <= j < after.projectiles.len() implies projectile_in_place(
        #[trigger] after.projectiles[j],
    ) by {
        let p = after.projectiles[j];
        assert(fine_pro(p) && keep_pro(p));
    }

    if total_hits(obstacles, projectiles) == 0 {
        lemma_no_hits_no_gain(obstacles, projectiles);
    }
}

/// A frame leaves the game well formed.
pub proof fn lemma_framed_wf(
    game: GameView,
    keys: Keys,
    dt: u32,
    viewport: Viewport,
    emitting: Seq<bool>,
    spawned: Option<Shape>,
)
    requires
        game.wf(),
        viewport.wf(),
        spawned matches Some(obstacle) ==> fresh_obstacle(obstacle, viewport),
    ensures
        framed(game, keys, dt, viewport, emitting, spawned).wf(),
{
    if game.state == GameState::Playing {
        lemma_simulated_wf(
            game,
            intents_of(game.state, keys),
            dt,
            viewport,
            emitting,
            spawned,
        );
    }
}

impl View for Game {
    type V = GameView;

    open spec fn view(&self) -> GameView {
        GameView {
            state: self.state,
            ship: self.ship,
            projectiles: self.projectiles@,
            obstacles: self.obstacles@,
            explosions: self.explosions@,
            score: self.score,
            high_score: self.high_score,
            viewport: self.viewport,
            direction_modifier: self.direction_modifier,
        }
    }
}

impl Game {
    /// What holds of the game between any two frames.
    pub open spec fn wf(&self) -> bool {
        self@.wf()
    }

    /// A game in its main menu: nothing on the field, the ship in the
    /// centre of the viewport, no points, and the high score it is given.
    pub fn new(high_score: u32, viewport: Viewport) -> (game: Game)
        requires
            viewport.wf(),
        ensures
            game@ == initial(high_score, viewport),
            game.wf(),
    {
        Game {
            state: GameState::MainMenu,
            ship: Shape {
                size: SHIP_SIZE,
                speed: SHIP_SPEED,
                x: viewport.width / 2,
                y: viewport.height / 2,
                collided: false,
            },
            projectiles: Vec::new(),
            obstacles: Vec::new(),
            explosions: Vec::new(),
            score: 0,
            high_score,
            viewport,
            direction_modifier: 0,
        }
    }

    /// Tests whether the game is well formed. A game that the library made
    /// and changed always is; one put together by hand may not be.
    pub fn is_wf(&self) -> (ok: bool)
        ensures
            ok == self.wf(),
    {
        if !(self.viewport.is_wf() && self.ship.is_wf() && self.ship.size == SHIP_SIZE
            && self.ship.speed == SHIP_SPEED && 0 <= self.ship.x && self.ship.x
            <= self.viewport.width && 0 <= self.ship.y && self.ship.y <= self.viewport.height
            && self.score <= self.high_score) {
            return false;
        }
        let mut i: usize = 0;
        while i < self.obstacles.len()
            invariant
                i <= self.obstacles.len(),
                self.viewport.wf(),
                forall|k: int|
                    0 <= k < i ==> obstacle_in_place(#[trigger] self@.obstacles[k], self@.viewport),
            decreases self.obstacles.len() - i,
        {
            let obstacle = self.obstacles[i];
            if !(is_at_rest(&obstacle) && -obstacle.size <= obstacle.y && obstacle.y
                < self.viewport.height + obstacle.size) {
                assert(!obstacle_in_place(self@.obstacles[i as int], self@.viewport));
                return false;
            }
            i = i + 1;
        }
        let mut j: usize = 0;
        while j < self.projectiles.len()
            invariant
                j <= self.projectiles.len(),
                forall|k: int| 0 <= k < j ==> projectile_in_place(#[trigger] self@.projectiles[k]),
            decreases self.projectiles.len() - j,
        {
            let projectile = self.projectiles[j];
            if !(is_at_rest(&projectile) && -projectile.size < 2 * projectile.y) {
                assert(!projectile_in_place(self@.projectiles[j as int]));
                return false;
            }
            j = j + 1;
        }
        true
    }

    /// Starts a run.
    pub fn restart(&mut self, viewport: Viewport)
        requires
            old(self).wf(),
            viewport.wf(),
        ensures
            final(self)@ == restarted(old(self)@, viewport),
            final(self).wf(),
    {
        self.obstacles = Vec::new();
        self.projectiles = Vec::new();
        self.explosions = Vec::new();
        self.ship.x = viewport.width / 2;
        self.ship.y = viewport.height / 2;
        self.score = 0;
        self.viewport = viewport;
        self.state = GameState::Playing;
    }

    /// Runs one step of the simulation, with the obstacle that the spawner
    /// lets in, if any.
    pub fn simulate(
        &mut self,
        intents: Intents,
        dt: u32,
        viewport: Viewport,
        emitting: &[bool],
        spawned: Option<Shape>,
    ) -> (action: Action)
        requires
            old(self).wf(),
            viewport.wf(),
            spawned matches Some(obstacle) ==> fresh_obstacle(obstacle, viewport),
        ensures
            final(self)@ == simulated(old(self)@, intents, dt, viewport, emitting@, spawned),
            action == run_action(final(self)@),
            final(self).wf(),
    {
        proof {
            lemma_simulated_wf(self@, intents, dt, viewport, emitting@, spawned);
            lemma_displacement_within_reach(SHIP_SPEED as int, dt as int);
        }
        steer(&mut self.ship, intents, dt);
        self.direction_modifier = drift(self.direction_modifier, intents, dt);
        if intents.fire {
            let projectile = fire(&self.ship);
            self.projectiles.push(projectile);
        }
        hold_in(&mut self.ship, viewport);
        match spawned {
            Some(obstacle) => {
                self.obstacles.push(obstacle);
            },
            None => {},
        }
        proof {
            assert forall|i: int| 0 <= i < self.obstacles@.len() implies at_rest(
                #[trigger] self.obstacles@[i],
            ) by {
                if i < old(self).obstacles@.len() {
                    assert(obstacle_in_place(old(self).obstacles@[i], old(self).viewport));
                }
            }
            assert forall|j: int| 0 <= j < self.projectiles@.len() implies at_rest(
                #[trigger] self.projectiles@[j],
            ) by {
                if j < old(self).projectiles@.len() {
                    assert(projectile_in_place(old(self).projectiles@[j]));
                }
            }
        }
        advance_obstacles(&mut self.obstacles, dt);
        advance_projectiles(&mut self.projectiles, dt);
        retire_explosions(&mut self.explosions, emitting);
        resolve_collisions(
            &mut self.obstacles,
            &mut self.projectiles,
            &mut self.explosions,
            &mut self.score,
            &mut self.high_score,
        );
        retire_obstacles(&mut self.obstacles, viewport);
        retire_projectiles(&mut self.projectiles);
        self.viewport = viewport;
        proof {
            let after = simulated(old(self)@, intents, dt, viewport, emitting@, spawned);
            assert(self.obstacles@ == after.obstacles);
            assert forall|i: int| 0 <= i < self.obstacles@.len() implies (
            #[trigger] self.obstacles@[i]).wf() by {
                assert(obstacle_in_place(after.obstacles[i], viewport));
            }
        }
        if hits_any(&self.ship, &self.obstacles) {
            self.state = GameState::GameOver;
        } else if intents.pause {
            self.state = GameState::Paused;
        }
        if self.state == GameState::GameOver && self.score == self.high_score {
            Action::SaveHighScore(self.high_score)
        } else {
            Action::Continue
        }
    }

    /// Runs one frame with the obstacle that the spawner lets in, if any.
    pub fn frame_with(
        &mut self,
        keys: Keys,
        dt: u32,
        viewport: Viewport,
        emitting: &[bool],
        spawned: Option<Shape>,
    ) -> (action: Action)
        requires
            old(self).wf(),
            viewport.wf(),
            spawned matches Some(obstacle) ==> fresh_obstacle(obstacle, viewport),
        ensures
            final(self)@ == framed(old(self)@, keys, dt, viewport, emitting@, spawned),
            action == frame_action(old(self)@, keys, final(self)@),
            final(self).wf(),
    {
        let intents = map_input(self.state, keys);
        match self.state {
            GameState::MainMenu => {
                if intents.exit {
                    Action::Exit
                } else {
                    if intents.confirm {
                        self.restart(viewport);
                    }
                    Action::Continue
                }
            },
            GameState::Playing => self.simulate(intents, dt, viewport, emitting, spawned),
            GameState::Paused => {
                if intents.confirm {
                    self.state = GameState::Playing;
                }
                Action::Continue
            },
            GameState::GameOver => {
                if intents.confirm {
                    self.state = GameState::MainMenu;
                }
                Action::Continue
            },
        }
    }

    /// Runs one frame. While a run is under way the spawner is asked, and
    /// what it lets in depends on chance: the frame is the one that
    /// `frame_with` describes for some outcome that the spawner can have.
    pub fn frame(&mut self, keys: Keys, dt: u32, viewport: Viewport, emitting: &[bool]) -> (action:
        Action)
        requires
            old(self).wf(),
            viewport.wf(),
        ensures
            exists|spawned: Option<Shape>|
                {
                    &&& spawnable(spawned, viewport)
                    &&& final(self)@ == #[trigger] framed(
                        old(self)@,
                        keys,
                        dt,
                        viewport,
                        emitting@,
                        spawned,
                    )
                    &&& action == frame_action(old(self)@, keys, final(self)@)
                },
            final(self).wf(),
    {
        let spawned = if self.state == GameState::Playing {
            spawn(viewport)
        } else {
            proof {
                assert(None::<Shape> == spawn_outcome(0, 0, 0, 0, viewport));
            }
            None
        };
        let action = self.frame_with(keys, dt, viewport, emitting, spawned);
        proof {
            assert(self@ == framed(old(self)@, keys, dt, viewport, emitting@, spawned));
        }
        action
    }
}

} // verus!
