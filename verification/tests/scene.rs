use bloop::collision::Explosion;
use bloop::game::Game;
use bloop::input::Intents;
use bloop::scene::{
    banner, center_text, draw_list, high_score_label, right_align_text, score_label, ship_pose,
    Banner, Draw, ShipPose, Tint, BANNER_TEXT_SIZE, HUD_TEXT_SIZE,
};
use bloop::shape::{Rect, Shape};
use bloop::state::GameState;
use bloop::units::PIXEL;
use bloop::viewport::Viewport;

const IDLE: Intents = Intents {
    move_left: false,
    move_right: false,
    move_up: false,
    move_down: false,
    fire: false,
    confirm: false,
    pause: false,
    exit: false,
};

fn px(pixels: i64) -> i64 {
    pixels * PIXEL
}

fn screen() -> Viewport {
    Viewport { width: px(800), height: px(600) }
}

#[test]
fn each_idle_state_shows_its_banner() {
    assert_eq!(
        banner(GameState::MainMenu),
        Some(Banner { text: "Press Space", size: 50, tint: Tint::White })
    );
    assert_eq!(banner(GameState::Paused), Some(Banner { text: "Paused", size: 50, tint: Tint::White }));
    assert_eq!(
        banner(GameState::GameOver),
        Some(Banner { text: "GAME OVER!", size: 50, tint: Tint::Red })
    );
    assert_eq!(banner(GameState::Playing), None);
    assert_eq!(BANNER_TEXT_SIZE, 50);
    assert_eq!(HUD_TEXT_SIZE, 25);
}

#[test]
fn the_score_displays_caption_their_numbers() {
    assert_eq!(score_label(0), b"Score : 0".to_vec());
    assert_eq!(score_label(1234), b"Score : 1234".to_vec());
    assert_eq!(high_score_label(42), b"High score : 42".to_vec());
    assert_eq!(high_score_label(u32::MAX), b"High score : 4294967295".to_vec());
}

#[test]
fn texts_are_centred_or_kept_from_the_right_border() {
    assert_eq!(center_text(screen(), px(200)), (px(300), px(300)));
    assert_eq!(center_text(screen(), 0), (px(400), px(300)));
    assert_eq!(center_text(screen(), px(1000)), (-px(100), px(300)));
    assert_eq!(right_align_text(screen(), px(150), px(10)), px(640));
    assert_eq!(right_align_text(screen(), 0, px(10)), px(790));
    assert_eq!(right_align_text(screen(), px(900), 0), -px(100));
}

#[test]
fn the_ship_banks_with_the_steering() {
    assert_eq!(ship_pose(IDLE), ShipPose::Idle);
    assert_eq!(ship_pose(Intents { move_right: true, ..IDLE }), ShipPose::Right);
    assert_eq!(ship_pose(Intents { move_left: true, ..IDLE }), ShipPose::Left);
    assert_eq!(ship_pose(Intents { move_left: true, move_right: true, ..IDLE }), ShipPose::Left);
    assert_eq!(ship_pose(Intents { move_up: true, move_down: true, fire: true, ..IDLE }), ShipPose::Idle);
}

#[test]
fn an_empty_field_draws_the_ship_and_the_scores() {
    let game = Game::new(9, screen());
    assert_eq!(
        draw_list(&game),
        vec![
            Draw::Ship(Rect { x: px(384), y: px(276), w: px(32), h: px(48) }),
            Draw::Score { value: 0, x: px(10), y: px(35), size: 25, tint: Tint::White },
            Draw::HighScore { value: 9, margin: px(10), y: px(35), size: 25, tint: Tint::White },
        ]
    );
}

#[test]
fn a_field_is_drawn_from_back_to_front() {
    let mut game = Game::new(70, screen());
    game.state = GameState::Playing;
    game.score = 30;
    game.ship.x = px(100);
    game.ship.y = px(500);
    game.projectiles.push(Shape { size: px(32), speed: 400_000, x: px(100), y: px(400), collided: false });
    game.projectiles.push(Shape { size: px(32), speed: 400_000, x: px(200), y: px(300), collided: false });
    game.obstacles.push(Shape { size: px(20), speed: 50_000, x: px(300), y: px(10), collided: false });
    game.explosions.push(Explosion { x: px(7), y: px(8), amount: 16 });
    game.explosions.push(Explosion { x: px(9), y: px(10), amount: 64 });
    assert!(game.is_wf());
    assert_eq!(
        draw_list(&game),
        vec![
            Draw::Ship(Rect { x: px(84), y: px(476), w: px(32), h: px(48) }),
            Draw::Projectile(Rect { x: px(84), y: px(384), w: px(32), h: px(32) }),
            Draw::Projectile(Rect { x: px(184), y: px(284), w: px(32), h: px(32) }),
            Draw::Obstacle(Rect { x: px(290), y: px(0), w: px(20), h: px(20) }, Tint::Green),
            Draw::Explosion { index: 0, x: px(7), y: px(8) },
            Draw::Explosion { index: 1, x: px(9), y: px(10) },
            Draw::Score { value: 30, x: px(10), y: px(35), size: 25, tint: Tint::White },
            Draw::HighScore { value: 70, margin: px(10), y: px(35), size: 25, tint: Tint::White },
        ]
    );
}
