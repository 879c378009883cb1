use ppan::calc::{Vec2, Velocity};
use ppan::game::{ball_collision_detection, on_collision, Ball, CollidingEntities, EntityId};
use ppan::paddle::Paddle;
use ppan::state::GameState;

/// Thousandths, from a decimal value.
fn milli(value: f64) -> i64 {
    (value * 1000.0).round() as i64
}

fn ball(bits: u64, x: i64, y: i64) -> Ball {
    Ball { entity: EntityId { bits }, velocity: Velocity { linvel: Vec2 { x, y } } }
}

fn touching(bits: &[u64]) -> CollidingEntities {
    let mut colliding = CollidingEntities::new();
    for b in bits {
        colliding.insert(EntityId { bits: *b });
    }
    colliding
}

#[test]
fn a_touch_speeds_the_ball_up_two_and_a_half_times() {
    let mut b = ball(7, milli(1.0), milli(2.0));
    on_collision(&mut b, &touching(&[7]));
    assert_eq!(b.velocity.linvel, Vec2 { x: milli(2.5), y: milli(5.0) });
    assert_eq!(b.entity, EntityId { bits: 7 });
}

#[test]
fn two_paddles_in_one_tick_compound() {
    let mut balls = vec![ball(7, milli(1.0), milli(2.0))];
    let paddles = vec![touching(&[7]), touching(&[7])];
    ball_collision_detection(&mut balls, &paddles);
    assert_eq!(balls[0].velocity.linvel, Vec2 { x: milli(6.25), y: milli(12.5) });
}

#[test]
fn a_ball_that_touches_nothing_keeps_its_speed() {
    let mut b = ball(7, 1_000, 2_000);
    on_collision(&mut b, &touching(&[]));
    assert_eq!(b, ball(7, 1_000, 2_000));
    on_collision(&mut b, &touching(&[6, 8, 70]));
    assert_eq!(b, ball(7, 1_000, 2_000));

    let mut balls = vec![ball(7, 1_000, 2_000)];
    ball_collision_detection(&mut balls, &vec![]);
    assert_eq!(balls, vec![ball(7, 1_000, 2_000)]);
    ball_collision_detection(&mut balls, &vec![touching(&[1]), touching(&[])]);
    assert_eq!(balls, vec![ball(7, 1_000, 2_000)]);
}

#[test]
fn each_ball_counts_its_own_touches() {
    let mut balls = vec![ball(1, 1_000, -2_000), ball(2, 400, 0), ball(3, 8, 8)];
    let paddles = vec![touching(&[1]), touching(&[2, 1]), touching(&[9]), touching(&[1, 1])];
    ball_collision_detection(&mut balls, &paddles);
    assert_eq!(balls[0], ball(1, 15_625, -31_250));
    assert_eq!(balls[1], ball(2, 1_000, 0));
    assert_eq!(balls[2], ball(3, 8, 8));

    let mut none: Vec<Ball> = vec![];
    ball_collision_detection(&mut none, &paddles);
    assert!(none.is_empty());
}

#[test]
fn the_boost_rounds_toward_zero() {
    let mut b = ball(1, 1, -1);
    on_collision(&mut b, &touching(&[1]));
    assert_eq!(b.velocity.linvel, Vec2 { x: 2, y: -2 });
    let mut b = ball(1, 3, -3);
    on_collision(&mut b, &touching(&[1]));
    assert_eq!(b.velocity.linvel, Vec2 { x: 7, y: -7 });
    let mut b = ball(1, 0, 2);
    on_collision(&mut b, &touching(&[1]));
    assert_eq!(b.velocity.linvel, Vec2 { x: 0, y: 5 });
}

#[test]
fn the_boost_stops_at_the_ends_of_the_range() {
    let mut b = ball(1, i64::MAX, i64::MIN);
    on_collision(&mut b, &touching(&[1]));
    assert_eq!(b.velocity.linvel, Vec2 { x: i64::MAX, y: i64::MIN });

    let mut b = ball(1, i64::MAX / 2, i64::MIN / 2);
    on_collision(&mut b, &touching(&[1]));
    assert_eq!(b.velocity.linvel, Vec2 { x: i64::MAX, y: i64::MIN });

    let mut b = ball(1, 3_689_348_814_741_910_322, -3_689_348_814_741_910_323);
    on_collision(&mut b, &touching(&[1]));
    assert_eq!(b.velocity.linvel, Vec2 { x: 9_223_372_036_854_775_805, y: i64::MIN + 1 });

    let mut balls = vec![ball(1, 1_000, 1_000)];
    let mut paddles = Vec::new();
    for _ in 0..60 {
        paddles.push(touching(&[1]));
    }
    ball_collision_detection(&mut balls, &paddles);
    assert_eq!(balls[0].velocity.linvel, Vec2 { x: i64::MAX, y: i64::MAX });
}

#[test]
fn colliding_entities_know_what_touches() {
    let mut colliding = CollidingEntities::new();
    assert!(!colliding.contains(EntityId { bits: 0 }));
    colliding.insert(EntityId { bits: 5 });
    colliding.insert(EntityId { bits: u64::MAX });
    assert!(colliding.contains(EntityId { bits: 5 }));
    assert!(colliding.contains(EntityId { bits: u64::MAX }));
    assert!(!colliding.contains(EntityId { bits: 4 }));
}

#[test]
fn a_match_lets_its_balls_react() {
    let paddles = vec![Paddle::new(0, 15_000, false), Paddle::new(1, 785_000, true)];
    let mut state = GameState::new(paddles.clone(), vec![ball(7, 1_000, 2_000), ball(8, 10, 20)]);
    state.collide(&vec![touching(&[7]), touching(&[7, 8])]);
    assert_eq!(state.balls(), &vec![ball(7, 6_250, 12_500), ball(8, 25, 50)]);
    assert_eq!(state.paddles(), &paddles);
}
