//! What the host draws.
//!
//! The library does not draw. It says what is to be drawn: while a run is
//! under way, a list of sprites, squares, explosions and the two score
//! displays; otherwise one line of text in the middle of the viewport.

use vstd::prelude::*;
use vstd::string::StrSliceExecFns;
use crate::collision::Explosion;
use crate::game::{obstacle_in_place, projectile_in_place, Game, GameView};
use crate::highscore::{decimal, push_decimal};
use crate::input::Intents;
use crate::shape::{Rect, Shape};
use crate::state::GameState;
use crate::units::MAX_EXTENT;
use crate::viewport::Viewport;

verus! {

/// Width of one frame of the ship's sprite sheet: 16 pixels.
pub const SHIP_FRAME_WIDTH: i64 = 16_000_000_000;

/// Height of one frame of the ship's sprite sheet: 24 pixels.
pub const SHIP_FRAME_HEIGHT: i64 = 24_000_000_000;

/// Height of the text of a banner, in pixels.
pub const BANNER_TEXT_SIZE: u32 = 50;

/// Height of the text of the score displays, in pixels.
pub const HUD_TEXT_SIZE: u32 = 25;

/// Distance of the score displays from the left and right borders: 10
/// pixels.
pub const HUD_MARGIN: i64 = 10_000_000_000;

/// Distance of the score displays' baseline from the top border: 35
/// pixels.
pub const HUD_BASELINE: i64 = 35_000_000_000;

/// A colour of the palette.
#[derive(Clone, Copy, Debug, PartialEq, Eq)]
pub enum Tint {
    White,
    Red,
    Green,
}

/// Which of its animations the ship shows.
#[derive(Clone, Copy, Debug, PartialEq, Eq)]
pub enum ShipPose {
    Idle,
    Left,
    Right,
}

/// One line of text in the middle of the viewport.
#[derive(Clone, Copy, Debug, PartialEq, Eq)]
pub struct Banner {
    pub text: &'static str,
    pub size: u32,
    pub tint: Tint,
}

/// One thing to draw in a frame of a run.
#[derive(Clone, Copy, Debug, PartialEq, Eq)]
pub enum Draw {
    /// The ship's sprite, stretched over a box.
    Ship(Rect),
    /// The projectile's sprite, stretched over a box.
    Projectile(Rect),
    /// A square filled with one colour.
    Obstacle(Rect, Tint),
    /// The particles of the explosion at `index` in the game's list,
    /// around an anchor.
    Explosion { index: usize, x: i64, y: i64 },
    /// The score display: its number, where its text starts, the height of
    /// the text in pixels and its colour.
    Score { value: u32, x: i64, y: i64, size: u32, tint: Tint },
    /// The high-score display: its number, how far its text ends from the
    /// right border, its baseline, the height of the text in pixels and its
    /// colour.
    HighScore { value: u32, margin: i64, y: i64, size: u32, tint: Tint },
}

/// The pose that the steering asks for: banking left wins over banking
/// right, and a ship that is not steered sideways idles.
pub open spec fn pose_of(intents: Intents) -> ShipPose {
    if intents.move_left {
        ShipPose::Left
    } else if intents.move_right {
        ShipPose::Right
    } else {
        ShipPose::Idle
    }
}

/// The text of a banner and its colour, for the states that show one.
pub open spec fn banner_of(state: GameState) -> Option<(Seq<char>, Tint)> {
    match state {
        GameState::MainMenu => Some(("Press Space"@, Tint::White)),
        GameState::Playing => None,
        GameState::Paused => Some(("Paused"@, Tint::White)),
        GameState::GameOver => Some(("GAME OVER!"@, Tint::Red)),
    }
}

/// The box over which the ship's sprite is stretched: twice the size of a
/// frame, with its top-left corner one whole frame up and left of the
/// ship's centre.
pub open spec fn ship_target(ship: Shape) -> Rect {
    Rect {
        x: (ship.x - SHIP_FRAME_WIDTH) as i64,
        y: (ship.y - SHIP_FRAME_HEIGHT) as i64,
        w: (2 * SHIP_FRAME_WIDTH) as i64,
        h: (2 * SHIP_FRAME_HEIGHT) as i64,
    }
}

/// One sprite per projectile, over its bounding box.
pub open spec fn projectile_draws(projectiles: Seq<Shape>) -> Seq<Draw> {
    Seq::new(projectiles.len(), |j: int| Draw::Projectile(projectiles[j].spec_rect()))
}

/// One green square per obstacle, over its bounding box.
pub open spec fn obstacle_draws(obstacles: Seq<Shape>) -> Seq<Draw> {
    Seq::new(obstacles.len(), |i: int| Draw::Obstacle(obstacles[i].spec_rect(), Tint::Green))
}

/// The score display: white, at the top left.
pub open spec fn score_draw(score: u32) -> Draw {
    Draw::Score {
        value: score,
        x: HUD_MARGIN,
        y: HUD_BASELINE,
        size: HUD_TEXT_SIZE,
        tint: Tint::White,
    }
}

/// The high-score display: white, at the top right.
pub open spec fn high_score_draw(high_score: u32) -> Draw {
    Draw::HighScore {
        value: high_score,
        margin: HUD_MARGIN,
        y: HUD_BASELINE,
        size: HUD_TEXT_SIZE,
        tint: Tint::White,
    }
}

/// One cloud of particles per explosion.
pub open spec fn explosion_draws(explosions: Seq<Explosion>) -> Seq<Draw> {
    Seq::new(
        explosions.len(),
        |i: int| Draw::Explosion { index: i as usize, x: explosions[i].x, y: explosions[i].y },
    )
}

/// What is drawn in a frame of a run, from back to front: the ship, the
/// projectiles, the obstacles, the explosions, and the two score displays.
pub open spec fn scene_of(game: GameView) -> Seq<Draw> {
    seq![Draw::Ship(ship_target(game.ship))] + projectile_draws(game.projectiles)
        + obstacle_draws(game.obstacles) + explosion_draws(game.explosions) + seq![
        score_draw(game.score),
        high_score_draw(game.high_score),
    ]
}

/// The text of a score display: a caption, then the number in decimal.
pub open spec fn labelled(caption: Seq<char>, number: u32) -> Seq<u8> {
    Seq::new(caption.len(), |i: int| caption[i] as u8) + decimal(number as nat)
}

/// Where a text of a given width starts so that it is centred in the
/// viewport: the horizontal position of its left end and the vertical
/// position of its baseline.
pub open spec fn centered_at(viewport: Viewport, text_width: i64) -> (int, int) {
    (viewport.width / 2 - text_width / 2, viewport.height / 2)
}

/// Where a text of a given width starts so that its right end keeps
/// `margin` from the right border.
pub open spec fn right_aligned_at(viewport: Viewport, text_width: i64, margin: i64) -> int {
    viewport.width - text_width - margin
}

/// Picks the ship's pose.
pub fn ship_pose(intents: Intents) -> (pose: ShipPose)
    ensures
        pose == pose_of(intents),
{
    if intents.move_left {
        ShipPose::Left
    } else if intents.move_right {
        ShipPose::Right
    } else {
        ShipPose::Idle
    }
}

/// The banner that a state shows, if it shows one.
pub fn banner(state: GameState) -> (shown: Option<Banner>)
    ensures
        match banner_of(state) {
            Some((text, tint)) => shown matches Some(b) && b.text@ == text && b.tint == tint
                && b.size == BANNER_TEXT_SIZE,
            None => shown is None,
        },
{
    match state {
        GameState::MainMenu => Some(
            Banner { text: "Press Space", size: BANNER_TEXT_SIZE, tint: Tint::White },
        ),
        GameState::Playing => None,
        GameState::Paused => Some(
            Banner { text: "Paused", size: BANNER_TEXT_SIZE, tint: Tint::White },
        ),
        GameState::GameOver => Some(
            Banner { text: "GAME OVER!", size: BANNER_TEXT_SIZE, tint: Tint::Red },
        ),
    }
}

/// Computes where a centred text starts.
pub fn center_text(viewport: Viewport, text_width: i64) -> (at: (i64, i64))
    requires
        viewport.wf(),
        0 <= text_width <= MAX_EXTENT,
    ensures
        (at.0 as int, at.1 as int) == centered_at(viewport, text_width),
{
    (viewport.width / 2 - text_width / 2, viewport.height / 2)
}

/// Computes where a text that is kept from the right border starts.
pub fn right_align_text(viewport: Viewport, text_width: i64, margin: i64) -> (x: i64)
    requires
        viewport.wf(),
        0 <= text_width <= MAX_EXTENT,
        0 <= margin <= MAX_EXTENT,
    ensures
        x == right_aligned_at(viewport, text_width, margin),
{
    viewport.width - text_width - margin
}

/// Writes a caption of ASCII characters and a number after it.
fn label(caption: &str, number: u32) -> (text: Vec<u8>)
    requires
        caption.is_ascii(),
    ensures
        text@ == labelled(caption@, number),
{
    let mut text: Vec<u8> = Vec::new();
    let len = caption.unicode_len();
    let mut i: usize = 0;
    while i < len
        invariant
            i <= len,
            len == caption@.len(),
            caption.is_ascii(),
            text@ == Seq::new(i as nat, |k: int| caption@[k] as u8),
        decreases len - i,
    {
        text.push(caption.get_ascii(i));
        i = i + 1;
        assert(text@ =~= Seq::new(i as nat, |k: int| caption@[k] as u8));
    }
    push_decimal(number, &mut text);
    assert(text@ =~= labelled(caption@, number));
    text
}

/// The text of the score display: `Score : ` and the score.
pub fn score_label(score: u32) -> (text: Vec<u8>)
    ensures
        text@ == labelled("Score : "@, score),
{
    proof {
        reveal_strlit("Score : ");
    }
    label("Score : ", score)
}

/// The text of the high-score display: `High score : ` and the high score.
pub fn high_score_label(high_score: u32) -> (text: Vec<u8>)
    ensures
        text@ == labelled("High score : "@, high_score),
{
    proof {
        reveal_strlit("High score : ");
    }
    label("High score : ", high_score)
}

/// Lists what is to be drawn in a frame of a run.
pub fn draw_list(game: &Game) -> (list: Vec<Draw>)
    requires
        game.wf(),
    ensures
        list@ == scene_of(game@),
{
    let mut list: Vec<Draw> = Vec::new();
    list.push(
        Draw::Ship(
            Rect {
                x: game.ship.x - SHIP_FRAME_WIDTH,
                y: game.ship.y - SHIP_FRAME_HEIGHT,
                w: 2 * SHIP_FRAME_WIDTH,
                h: 2 * SHIP_FRAME_HEIGHT,
            },
        ),
    );
    let ghost ship_only = list@;
    let mut j: usize = 0;
    while j < game.projectiles.len()
        invariant
            j <= game.projectiles.len(),
            game.wf(),
            list@ == ship_only + projectile_draws(game.projectiles@.take(j as int)),
        decreases game.projectiles.len() - j,
    {
        assert(projectile_in_place(game@.projectiles[j as int]));
        list.push(Draw::Projectile(game.projectiles[j].rect()));
        j = j + 1;
    }
    assert(game.projectiles@.take(j as int) =~= game.projectiles@);
    let ghost with_projectiles = list@;
    let mut i: usize = 0;
    while i < game.obstacles.len()
        invariant
            i <= game.obstacles.len(),
            game.wf(),
            list@ == with_projectiles + obstacle_draws(game.obstacles@.take(i as int)),
        decreases game.obstacles.len() - i,
    {
        assert(obstacle_in_place(game@.obstacles[i as int], game@.viewport));
        list.push(Draw::Obstacle(game.obstacles[i].rect(), Tint::Green));
        i = i + 1;
    }
    assert(game.obstacles@.take(i as int) =~= game.obstacles@);
    let ghost with_obstacles = list@;
    let mut k: usize = 0;
    while k < game.explosions.len()
        invariant
            k <= game.explosions.len(),
            list@ == with_obstacles + explosion_draws(game.explosions@.take(k as int)),
        decreases game.explosions.len() - k,
    {
        let explosion = game.explosions[k];
        list.push(Draw::Explosion { index: k, x: explosion.x, y: explosion.y });
        k = k + 1;
    }
    assert(game.explosions@.take(k as int) =~= game.explosions@);
    list.push(
        Draw::Score {
            value: game.score,
            x: HUD_MARGIN,
            y: HUD_BASELINE,
            size: HUD_TEXT_SIZE,
            tint: Tint::White,
        },
    );
    list.push(
        Draw::HighScore {
            value: game.high_score,
            margin: HUD_MARGIN,
            y: HUD_BASELINE,
            size: HUD_TEXT_SIZE,
            tint: Tint::White,
        },
    );
    assert(list@ =~= scene_of(game@));
    list
}

} // verus!
