use bloop::shape::Shape;
use bloop::spawner::{
    interpolate, lets_in, make_obstacle, spawn, FRACTION_STEPS, MAX_OBSTACLE_SIZE,
    MAX_OBSTACLE_SPEED, MIN_OBSTACLE_SIZE, MIN_OBSTACLE_SPEED, SPAWN_ROLLS, SPAWN_THRESHOLD,
};
use bloop::units::PIXEL;
use bloop::viewport::Viewport;

fn px(pixels: i64) -> i64 {
    pixels * PIXEL
}

fn screen() -> Viewport {
    Viewport { width: px(800), height: px(600) }
}

#[test]
fn five_draws_in_a_hundred_let_an_obstacle_in() {
    let spawning = (0..SPAWN_ROLLS).filter(|roll| lets_in(*roll)).count();
    assert_eq!(spawning, 5);
    assert!(!lets_in(94));
    assert!(lets_in(95));
    assert!(lets_in(99));
    assert_eq!(SPAWN_THRESHOLD, 95);
}

#[test]
fn interpolation_starts_at_the_lower_end() {
    assert_eq!(interpolate(10, 20, 0), 10);
    assert_eq!(interpolate(-50, 50, 0), -50);
}

#[test]
fn interpolation_is_linear_and_rounds_down() {
    let half = FRACTION_STEPS / 2;
    assert_eq!(interpolate(0, 100, half), 50);
    assert_eq!(interpolate(-100, 100, half), 0);
    assert_eq!(interpolate(0, FRACTION_STEPS as i64, 1), 1);
    assert_eq!(interpolate(0, 1, FRACTION_STEPS - 1), 0);
    assert_eq!(interpolate(0, 3, half), 1);
    assert_eq!(interpolate(7, 7, half), 7);
}

#[test]
fn interpolation_stays_short_of_the_upper_end() {
    assert_eq!(interpolate(0, 1_048_576_000, FRACTION_STEPS - 1), 1_048_575_000);
    assert_eq!(interpolate(i64::MIN, i64::MAX, FRACTION_STEPS - 1), i64::MAX - (1i64 << 44));
}

#[test]
fn the_smallest_fractions_make_the_smallest_obstacle() {
    assert_eq!(
        make_obstacle(0, 0, 0, screen()),
        Some(Shape { size: px(16), speed: 50_000, x: px(8), y: -px(16), collided: false })
    );
}

#[test]
fn the_middle_fractions_make_the_middle_obstacle() {
    let half = FRACTION_STEPS / 2;
    assert_eq!(
        make_obstacle(half, half, half, screen()),
        Some(Shape { size: px(40), speed: 100_000, x: px(400), y: -px(40), collided: false })
    );
}

#[test]
fn the_largest_fractions_stay_inside_the_ranges() {
    let last = FRACTION_STEPS - 1;
    let made = make_obstacle(last, last, last, screen()).unwrap();
    assert!(made.size < MAX_OBSTACLE_SIZE && made.size > px(63));
    assert!(made.speed < MAX_OBSTACLE_SPEED && made.speed > 149_000);
    assert!(made.x < px(800) - made.size / 2 && made.x > px(767));
    assert_eq!(made.y, -made.size);
}

#[test]
fn a_viewport_narrower_than_the_obstacle_gets_none() {
    let narrow = Viewport { width: px(10), height: px(600) };
    assert_eq!(make_obstacle(0, 0, 0, narrow), None);
    let exact = Viewport { width: px(16), height: px(600) };
    assert_eq!(
        make_obstacle(0, 0, 0, exact),
        Some(Shape { size: px(16), speed: 50_000, x: px(8), y: -px(16), collided: false })
    );
    assert_eq!(make_obstacle(1, 0, 0, exact), None);
}

#[test]
fn the_spawner_lets_in_fresh_obstacles_and_not_every_frame() {
    macroquad::rand::srand(7);
    let viewport = screen();
    let mut made = 0;
    let mut sizes = Vec::new();
    for _ in 0..20_000 {
        if let Some(shape) = spawn(viewport) {
            made += 1;
            assert!(MIN_OBSTACLE_SIZE <= shape.size && shape.size < MAX_OBSTACLE_SIZE);
            assert!(MIN_OBSTACLE_SPEED <= shape.speed && shape.speed < MAX_OBSTACLE_SPEED);
            assert!(shape.size / 2 <= shape.x && shape.x <= viewport.width - shape.size / 2);
            assert_eq!(shape.y, -shape.size);
            assert!(!shape.collided);
            sizes.push(shape.size);
        }
    }
    assert!(made > 500 && made < 1_500, "made {made} obstacles in 20000 frames");
    sizes.sort();
    sizes.dedup();
    assert!(sizes.len() > 100);
    assert!(*sizes.last().unwrap() > px(60));
    assert!(*sizes.first().unwrap() < px(20));
}

#[test]
fn the_spawner_repeats_itself_from_the_same_seed() {
    let viewport = screen();
    macroquad::rand::srand(99);
    let first: Vec<Option<Shape>> = (0..500).map(|_| spawn(viewport)).collect();
    macroquad::rand::srand(99);
    let second: Vec<Option<Shape>> = (0..500).map(|_| spawn(viewport)).collect();
    assert_eq!(first, second);
    assert!(first.iter().any(|made| made.is_some()));
}
