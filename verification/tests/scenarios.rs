use bloop::collision::Explosion;
use bloop::game::{Action, Game};
use bloop::highscore::{format_high_score, parse_high_score};
use bloop::input::Keys;
use bloop::shape::Shape;
use bloop::state::GameState;
use bloop::units::PIXEL;
use bloop::viewport::Viewport;

const NO_KEYS: Keys =
    Keys { left: false, right: false, up: false, down: false, space: false, escape: false };
const SPACE: Keys = Keys { space: true, ..NO_KEYS };
const ESCAPE: Keys = Keys { escape: true, ..NO_KEYS };

fn px(pixels: i64) -> i64 {
    pixels * PIXEL
}

fn screen() -> Viewport {
    Viewport { width: px(800), height: px(600) }
}

fn still(x: i64, y: i64, size: i64) -> Shape {
    Shape { size: px(size), speed: 0, x: px(x), y: px(y), collided: false }
}

fn playing(high_score: u32) -> Game {
    let mut game = Game::new(high_score, screen());
    assert_eq!(game.frame_with(SPACE, 0, screen(), &[], None), Action::Continue);
    assert_eq!(game.state, GameState::Playing);
    game
}

#[test]
fn a_new_game_waits_in_the_main_menu() {
    let game = Game::new(12, screen());
    assert_eq!(game.state, GameState::MainMenu);
    assert_eq!(
        game.ship,
        Shape { size: px(32), speed: 200_000, x: px(400), y: px(300), collided: false }
    );
    assert!(game.projectiles.is_empty());
    assert!(game.obstacles.is_empty());
    assert!(game.explosions.is_empty());
    assert_eq!(game.score, 0);
    assert_eq!(game.high_score, 12);
    assert_eq!(game.viewport, screen());
    assert_eq!(game.direction_modifier, 0);
    assert!(game.is_wf());
}

#[test]
fn start_and_fire() {
    let mut game = Game::new(0, screen());
    let action = game.frame_with(SPACE, 16_000, screen(), &[], None);
    assert_eq!(action, Action::Continue);
    assert_eq!(game.state, GameState::Playing);
    assert!(game.projectiles.is_empty());
    assert!(game.obstacles.is_empty());
    assert!(game.explosions.is_empty());
    assert_eq!(game.score, 0);
    assert_eq!((game.ship.x, game.ship.y), (px(400), px(300)));

    let action = game.frame_with(SPACE, 0, screen(), &[], None);
    assert_eq!(action, Action::Continue);
    assert_eq!(game.projectiles.len(), 1);
    assert_eq!(
        game.projectiles[0],
        Shape { size: px(32), speed: 400_000, x: px(400), y: px(300 - 24), collided: false }
    );
    assert!(game.is_wf());
}

#[test]
fn a_fired_projectile_rises_in_the_frame_that_fires_it() {
    let mut game = playing(0);
    game.frame_with(SPACE, 16_000, screen(), &[], None);
    assert_eq!(game.projectiles.len(), 1);
    assert_eq!(game.projectiles[0].y, px(276) - 400_000 * 16_000);
    game.frame_with(NO_KEYS, 10_000, screen(), &[], None);
    assert_eq!(game.projectiles[0].y, px(276) - 400_000 * 26_000);
    assert_eq!(game.projectiles.len(), 1);
}

#[test]
fn a_projectile_starts_from_where_the_ship_was_steered_to() {
    let mut game = playing(0);
    let keys = Keys { right: true, down: true, space: true, ..NO_KEYS };
    game.frame_with(keys, 100_000, screen(), &[], None);
    assert_eq!((game.ship.x, game.ship.y), (px(420), px(320)));
    assert_eq!(game.projectiles[0].x, px(420));
    assert_eq!(game.projectiles[0].y, px(320 - 24) - 400_000 * 100_000);
}

#[test]
fn score() {
    let mut game = playing(7);
    game.obstacles.push(still(100, 100, 20));
    game.projectiles.push(still(100, 100, 32));
    assert!(game.is_wf());
    let action = game.frame_with(NO_KEYS, 16_000, screen(), &[], None);
    assert_eq!(action, Action::Continue);
    assert_eq!(game.state, GameState::Playing);
    assert_eq!(game.score, 20);
    assert_eq!(game.high_score, 20);
    assert_eq!(game.explosions, vec![Explosion { x: px(100), y: px(100), amount: 20 }]);
    assert!(game.obstacles.is_empty());
    assert!(game.projectiles.is_empty());
    assert!(game.is_wf());
}

#[test]
fn score_below_the_high_score_leaves_it() {
    let mut game = playing(500);
    game.obstacles.push(still(100, 100, 20));
    game.projectiles.push(still(100, 100, 32));
    game.frame_with(NO_KEYS, 16_000, screen(), &[], None);
    assert_eq!(game.score, 20);
    assert_eq!(game.high_score, 500);
}

#[test]
fn game_over_and_persist() {
    let mut game = playing(10);
    game.obstacles.push(still(100, 100, 42));
    game.projectiles.push(still(100, 100, 32));
    game.frame_with(NO_KEYS, 16_000, screen(), &[], None);
    assert_eq!((game.score, game.high_score), (42, 42));
    assert_eq!(game.state, GameState::Playing);

    game.obstacles.push(still(410, 310, 20));
    let action = game.frame_with(NO_KEYS, 16_000, screen(), &[], None);
    assert_eq!(game.state, GameState::GameOver);
    assert_eq!(action, Action::SaveHighScore(42));
    let stored = match action {
        Action::SaveHighScore(score) => format_high_score(score),
        _ => unreachable!(),
    };
    assert_eq!(stored, b"42".to_vec());
    assert_eq!(parse_high_score(&stored), 42);
    assert_eq!(Game::new(parse_high_score(&stored), screen()).high_score, 42);
}

#[test]
fn game_over_no_persist() {
    let mut game = playing(99);
    game.score = 5;
    game.obstacles.push(still(400, 300, 20));
    assert!(game.is_wf());
    let action = game.frame_with(NO_KEYS, 16_000, screen(), &[], None);
    assert_eq!(game.state, GameState::GameOver);
    assert_eq!(action, Action::Continue);
    assert_eq!((game.score, game.high_score), (5, 99));
}

#[test]
fn a_run_that_ends_on_the_frame_of_a_hit_persists_the_new_high_score() {
    let mut game = playing(10);
    game.obstacles.push(still(100, 100, 42));
    game.projectiles.push(still(100, 100, 32));
    game.obstacles.push(still(400, 300, 20));
    let action = game.frame_with(NO_KEYS, 0, screen(), &[], None);
    assert_eq!(game.state, GameState::GameOver);
    assert_eq!(action, Action::SaveHighScore(42));
}

#[test]
fn a_run_without_points_that_meets_a_zero_high_score_persists_it() {
    let mut game = playing(0);
    game.obstacles.push(still(400, 300, 20));
    let action = game.frame_with(NO_KEYS, 0, screen(), &[], None);
    assert_eq!(game.state, GameState::GameOver);
    assert_eq!(action, Action::SaveHighScore(0));
}

#[test]
fn an_obstacle_shot_in_the_frame_it_reaches_the_ship_does_no_harm() {
    let mut game = playing(0);
    game.obstacles.push(still(400, 300, 20));
    game.projectiles.push(still(400, 300, 32));
    let action = game.frame_with(NO_KEYS, 0, screen(), &[], None);
    assert_eq!(game.state, GameState::Playing);
    assert_eq!(action, Action::Continue);
    assert_eq!(game.score, 20);
}

#[test]
fn pause_preserves_state() {
    let mut game = playing(0);
    game.obstacles.push(Shape { speed: 50_000, ..still(100, 100, 20) });
    game.obstacles.push(Shape { speed: 150_000, ..still(300, 50, 40) });
    game.projectiles.push(Shape { speed: 400_000, ..still(600, 500, 32) });
    game.explosions.push(Explosion { x: px(5), y: px(6), amount: 16 });
    assert!(game.is_wf());

    let action = game.frame_with(ESCAPE, 16_000, screen(), &[true], None);
    assert_eq!(action, Action::Continue);
    assert_eq!(game.state, GameState::Paused);
    let paused = game.clone();
    assert_eq!(paused.obstacles.len(), 2);
    assert_eq!(paused.projectiles.len(), 1);

    let held = Keys { left: true, right: false, up: true, down: false, ..NO_KEYS };
    let smaller = Viewport { width: px(100), height: px(100) };
    for _ in 0..10 {
        let action = game.frame(held, 16_000, smaller, &[false]);
        assert_eq!(action, Action::Continue);
        assert_eq!(game, paused);
    }
    assert_eq!(game.frame(ESCAPE, 16_000, screen(), &[false]), Action::Continue);
    assert_eq!(game, paused);

    let action = game.frame_with(SPACE, 16_000, screen(), &[false], None);
    assert_eq!(action, Action::Continue);
    assert_eq!(game.state, GameState::Playing);
    assert_eq!(game.obstacles, paused.obstacles);
    assert_eq!(game.projectiles, paused.projectiles);
    assert_eq!(game.explosions, paused.explosions);
    assert_eq!(game.ship, paused.ship);
    assert_eq!(game.score, paused.score);
}

#[test]
fn the_frame_that_pauses_still_moves_the_field() {
    let mut game = playing(0);
    game.obstacles.push(Shape { speed: 50_000, ..still(100, 100, 20) });
    game.frame_with(ESCAPE, 1_000_000, screen(), &[], None);
    assert_eq!(game.state, GameState::Paused);
    assert_eq!(game.obstacles[0].y, px(150));
}

#[test]
fn a_wreck_wins_over_a_pause() {
    let mut game = playing(3);
    game.obstacles.push(still(400, 300, 20));
    let action = game.frame_with(ESCAPE, 0, screen(), &[], None);
    assert_eq!(game.state, GameState::GameOver);
    assert_eq!(action, Action::Continue);
}

#[test]
fn esc_from_main_menu_exits() {
    let mut game = Game::new(3, screen());
    let before = game.clone();
    assert_eq!(game.frame(ESCAPE, 16_000, screen(), &[]), Action::Exit);
    assert_eq!(game, before);
}

#[test]
fn escape_wins_over_space_in_the_main_menu() {
    let mut game = Game::new(3, screen());
    let both = Keys { space: true, escape: true, ..NO_KEYS };
    assert_eq!(game.frame(both, 16_000, screen(), &[]), Action::Exit);
    assert_eq!(game.state, GameState::MainMenu);
}

#[test]
fn the_main_menu_ignores_every_other_key() {
    let mut game = Game::new(3, screen());
    let before = game.clone();
    let arrows = Keys { left: true, right: true, up: true, down: true, ..NO_KEYS };
    assert_eq!(game.frame(arrows, 16_000, screen(), &[]), Action::Continue);
    assert_eq!(game, before);
    assert_eq!(game.frame(NO_KEYS, 16_000, screen(), &[]), Action::Continue);
    assert_eq!(game, before);
}

#[test]
fn game_over_gives_way_to_the_main_menu_and_keeps_the_field() {
    let mut game = playing(0);
    game.obstacles.push(still(400, 300, 20));
    game.obstacles.push(still(100, 100, 20));
    game.projectiles.push(still(700, 500, 32));
    game.frame_with(NO_KEYS, 0, screen(), &[], None);
    assert_eq!(game.state, GameState::GameOver);
    let wrecked = game.clone();

    assert_eq!(game.frame(ESCAPE, 16_000, screen(), &[]), Action::Continue);
    assert_eq!(game, wrecked);
    assert_eq!(game.frame(NO_KEYS, 16_000, screen(), &[]), Action::Continue);
    assert_eq!(game, wrecked);

    assert_eq!(game.frame(SPACE, 16_000, screen(), &[]), Action::Continue);
    assert_eq!(game.state, GameState::MainMenu);
    assert_eq!(game.obstacles, wrecked.obstacles);
    assert_eq!(game.projectiles, wrecked.projectiles);
    assert_eq!(game.score, wrecked.score);
}

#[test]
fn a_new_run_clears_what_the_last_one_left() {
    let mut game = playing(0);
    game.obstacles.push(still(100, 100, 30));
    game.projectiles.push(still(100, 100, 32));
    game.obstacles.push(still(390, 290, 20));
    game.projectiles.push(still(700, 500, 32));
    let keys = Keys { right: true, ..NO_KEYS };
    game.frame_with(keys, 16_000, screen(), &[], None);
    assert_eq!(game.state, GameState::GameOver);
    assert_eq!((game.score, game.high_score), (30, 30));
    assert_eq!(game.explosions.len(), 1);
    let drift = game.direction_modifier;
    assert_eq!(drift, 5 * 16_000);
    game.frame(SPACE, 16_000, screen(), &[true]);
    assert_eq!(game.state, GameState::MainMenu);
    assert_eq!(game.obstacles.len(), 1);

    let wide = Viewport { width: px(1000), height: px(500) };
    game.frame(SPACE, 16_000, wide, &[true]);
    assert_eq!(game.state, GameState::Playing);
    assert!(game.obstacles.is_empty());
    assert!(game.projectiles.is_empty());
    assert!(game.explosions.is_empty());
    assert_eq!(game.score, 0);
    assert_eq!(game.high_score, 30);
    assert_eq!((game.ship.x, game.ship.y), (px(500), px(250)));
    assert_eq!(game.viewport, wide);
    assert_eq!(game.direction_modifier, drift);
    assert!(game.is_wf());
}

#[test]
fn a_projectile_leaves_the_viewport_on_time() {
    let mut game = playing(0);
    game.frame_with(SPACE, 729_999, screen(), &[], None);
    assert_eq!(game.projectiles.len(), 1);
    assert_eq!(game.projectiles[0].y, -px(16) + 400_000);

    let mut game = playing(0);
    game.frame_with(SPACE, 730_000, screen(), &[], None);
    assert!(game.projectiles.is_empty());

    let mut game = playing(0);
    game.frame_with(SPACE, 365_000, screen(), &[], None);
    assert_eq!(game.projectiles.len(), 1);
    game.frame_with(NO_KEYS, 364_999, screen(), &[], None);
    assert_eq!(game.projectiles.len(), 1);
    game.frame_with(NO_KEYS, 1, screen(), &[], None);
    assert!(game.projectiles.is_empty());
}

#[test]
fn an_obstacle_clears_the_viewport_on_time() {
    let entering = Shape { size: px(16), speed: 50_000, x: px(100), y: -px(16), collided: false };
    let mut game = playing(0);
    game.obstacles.push(entering);
    game.frame_with(NO_KEYS, 12_639_999, screen(), &[], None);
    assert_eq!(game.obstacles.len(), 1);
    assert_eq!(game.obstacles[0].y, px(616) - 50_000);

    let mut game = playing(0);
    game.obstacles.push(entering);
    game.frame_with(NO_KEYS, 12_640_000, screen(), &[], None);
    assert!(game.obstacles.is_empty());

    let mut game = playing(0);
    game.obstacles.push(entering);
    for _ in 0..12 {
        game.frame_with(NO_KEYS, 1_000_000, screen(), &[], None);
    }
    assert_eq!(game.obstacles.len(), 1);
    game.frame_with(NO_KEYS, 640_000, screen(), &[], None);
    assert!(game.obstacles.is_empty());
}

#[test]
fn a_spawned_obstacle_falls_in_the_frame_that_lets_it_in() {
    let entering = Shape { size: px(16), speed: 50_000, x: px(100), y: -px(16), collided: false };
    let mut game = playing(0);
    game.frame_with(NO_KEYS, 1_000_000, screen(), &[], Some(entering));
    assert_eq!(game.obstacles, vec![Shape { y: px(34), ..entering }]);
    game.frame_with(NO_KEYS, 1_000_000, screen(), &[], Some(entering));
    assert_eq!(game.obstacles, vec![Shape { y: px(84), ..entering }, Shape { y: px(34), ..entering }]);
    assert!(game.is_wf());
}

#[test]
fn frames_of_a_run_keep_the_game_well_formed() {
    macroquad::rand::srand(2024);
    let mut game = Game::new(0, screen());
    let mut seen_obstacles = 0;
    let mut runs = 0;
    for frame in 0u32..30_000 {
        let keys = Keys {
            left: frame % 7 < 3,
            right: frame % 11 < 5,
            up: frame % 13 < 6,
            down: frame % 17 < 8,
            space: frame % 5 == 0,
            escape: false,
        };
        if game.state == GameState::MainMenu {
            runs += 1;
        }
        let flags: Vec<bool> = game.explosions.iter().enumerate().map(|(i, _)| i % 2 == 0).collect();
        let before = game.high_score;
        let was_playing = game.state == GameState::Playing;
        let action = game.frame(keys, 16_667, screen(), &flags);
        assert!(game.is_wf(), "frame {frame}");
        assert!(game.score <= game.high_score);
        assert!(game.high_score >= before);
        assert!(0 <= game.ship.x && game.ship.x <= px(800));
        assert!(0 <= game.ship.y && game.ship.y <= px(600));
        for obstacle in &game.obstacles {
            assert!(-obstacle.size <= obstacle.y && obstacle.y < px(600) + obstacle.size);
        }
        for projectile in &game.projectiles {
            assert!(-projectile.size < 2 * projectile.y);
        }
        assert_eq!(
            matches!(action, Action::SaveHighScore(_)),
            was_playing && game.state == GameState::GameOver && game.score == game.high_score
        );
        seen_obstacles += game.obstacles.len();
    }
    assert!(seen_obstacles > 0);
    assert!(runs > 0);
}
