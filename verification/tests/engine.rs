use ppan::calc::{
    paddle_sim, Acceleration, NextStop, Orientation, RotAcceleration, Rotating, Vec2, Velocity,
};
use ppan::game::{movement, PaddleBody};
use ppan::input::PlayerInputState;
use ppan::paddle::RotatingM;

fn body(rotation: i64, next_stop: i64, rotating: RotatingM, input: u8) -> PaddleBody {
    PaddleBody {
        action_state: PlayerInputState::decode(input),
        acceleration: Acceleration(50_000),
        next_stop: NextStop(next_stop),
        rotating: Rotating(rotating),
        velocity: Velocity { linvel: Vec2 { x: 0, y: 0 } },
        transform: Orientation { rotation },
        rot_acceleration: RotAcceleration(800),
    }
}

fn step(b: &mut PaddleBody) {
    paddle_sim(
        &mut b.transform,
        &mut b.rotating,
        &mut b.next_stop,
        &b.action_state,
        &mut b.velocity,
        &b.acceleration,
        &b.rot_acceleration,
    );
}

#[test]
fn an_engine_paddle_turns_and_gains_speed() {
    let mut b = body(0, 0, RotatingM::Neither, 16 | 8 | 1);
    step(&mut b);
    assert_eq!(b.transform.rotation, 8_000);
    assert_eq!(b.next_stop, NextStop(90_000));
    assert_eq!(b.rotating, Rotating(RotatingM::Clockwise));
    assert_eq!(b.velocity.linvel, Vec2 { x: 50_000, y: 50_000 });
    assert_eq!(b.acceleration, Acceleration(50_000));
    assert_eq!(b.rot_acceleration, RotAcceleration(800));
}

#[test]
fn in_the_engine_frame_up_grows_y() {
    let mut b = body(0, 0, RotatingM::Neither, 1);
    step(&mut b);
    assert_eq!(b.velocity.linvel, Vec2 { x: 0, y: 50_000 });
    let mut b = body(0, 0, RotatingM::Neither, 2);
    step(&mut b);
    assert_eq!(b.velocity.linvel, Vec2 { x: 0, y: -50_000 });
    let mut b = body(0, 0, RotatingM::Neither, 4);
    step(&mut b);
    assert_eq!(b.velocity.linvel, Vec2 { x: -50_000, y: 0 });
    let mut b = body(0, 0, RotatingM::Neither, 1 | 2 | 4 | 8);
    step(&mut b);
    assert_eq!(b.velocity.linvel, Vec2 { x: 0, y: 0 });
}

#[test]
fn an_engine_paddle_has_no_speed_limit_but_the_range() {
    let mut b = body(0, 0, RotatingM::Neither, 8 | 2);
    b.velocity.linvel = Vec2 { x: 2_000_000, y: -2_000_000 };
    step(&mut b);
    assert_eq!(b.velocity.linvel, Vec2 { x: 2_050_000, y: -2_050_000 });

    let mut b = body(0, 0, RotatingM::Neither, 8 | 2);
    b.velocity.linvel = Vec2 { x: i64::MAX - 5, y: i64::MIN + 5 };
    step(&mut b);
    assert_eq!(b.velocity.linvel, Vec2 { x: i64::MAX, y: i64::MIN });

    // Down is read before up, right before left.
    let mut b = body(0, 0, RotatingM::Neither, 1 | 2 | 4 | 8);
    b.velocity.linvel = Vec2 { x: i64::MAX, y: i64::MIN };
    step(&mut b);
    assert_eq!(b.velocity.linvel, Vec2 { x: i64::MAX - 50_000, y: i64::MIN + 50_000 });

    let mut b = body(0, 0, RotatingM::Neither, 8);
    b.acceleration = Acceleration(-7);
    step(&mut b);
    assert_eq!(b.velocity.linvel, Vec2 { x: -7, y: 0 });
}

#[test]
fn a_reported_rotation_is_brought_into_the_circle() {
    let mut b = body(-10_000, 0, RotatingM::Neither, 0);
    step(&mut b);
    assert_eq!(b.transform.rotation, 354_000);

    let mut b = body(360_000 + 89_499, 90_000, RotatingM::Neither, 0);
    step(&mut b);
    assert_eq!(b.transform.rotation, 90_394);

    let mut b = body(720_000, 0, RotatingM::Clockwise, 0);
    step(&mut b);
    assert_eq!(b.transform.rotation, 0);
    assert_eq!(b.rotating, Rotating(RotatingM::Neither));
}

#[test]
fn the_step_of_a_turn_is_capped_for_any_acceleration() {
    let mut b = body(0, 180_000, RotatingM::Neither, 0);
    b.rot_acceleration = RotAcceleration(u32::MAX);
    step(&mut b);
    assert_eq!(b.transform.rotation, 352_000);

    let mut b = body(0, 90_000, RotatingM::Neither, 0);
    b.rot_acceleration = RotAcceleration(u32::MAX);
    step(&mut b);
    assert_eq!(b.transform.rotation, 8_000);
}

#[test]
fn without_acceleration_a_far_paddle_does_not_turn() {
    let mut b = body(45_000, 90_000, RotatingM::Neither, 0);
    b.rot_acceleration = RotAcceleration(0);
    for _ in 0..10 {
        step(&mut b);
        assert_eq!(b.transform.rotation, 45_000);
    }
    // Within the snap distance it still snaps.
    let mut b = body(89_700, 90_000, RotatingM::Neither, 0);
    b.rot_acceleration = RotAcceleration(0);
    step(&mut b);
    assert_eq!(b.transform.rotation, 90_000);
}

#[test]
fn the_gentlest_acceleration_still_settles() {
    let mut b = body(45_000, 0, RotatingM::Neither, 0);
    b.rot_acceleration = RotAcceleration(1);
    let mut ticks = 0;
    while b.transform.rotation != 0 {
        step(&mut b);
        ticks += 1;
        assert!(ticks <= 360_000 / 31 + 2);
    }
    assert_eq!(ticks, 270);
    assert_eq!(b.rotating, Rotating(RotatingM::Neither));
}

#[test]
fn the_largest_settling_acceleration_settles_from_everywhere() {
    for stop in [0, 90_000, 180_000, 270_000] {
        let mut rotation = 0;
        while rotation < 360_000 {
            let mut b = body(rotation, stop, RotatingM::Neither, 0);
            b.rot_acceleration = RotAcceleration(1_001);
            let mut ticks = 0;
            while b.transform.rotation != stop {
                step(&mut b);
                ticks += 1;
                assert!(ticks <= 360_000 / 1_001 + 2);
            }
            rotation += 167;
        }
    }
    // Around the snap distance, where an overshoot is largest.
    for rotation in 89_000..=91_000 {
        let mut b = body(rotation, 90_000, RotatingM::Neither, 0);
        b.rot_acceleration = RotAcceleration(1_001);
        step(&mut b);
        step(&mut b);
        step(&mut b);
        assert_eq!(b.transform.rotation, 90_000);
    }
}

#[test]
fn beyond_the_settling_range_a_paddle_can_swing_forever() {
    let mut b = body(89_499, 90_000, RotatingM::Neither, 0);
    b.rot_acceleration = RotAcceleration(1_002);
    for _ in 0..1_000 {
        step(&mut b);
        assert_eq!(b.transform.rotation, 90_501);
        step(&mut b);
        assert_eq!(b.transform.rotation, 89_499);
    }
}

#[test]
fn movement_gives_every_paddle_its_own_tick() {
    let mut query = vec![
        body(0, 0, RotatingM::Neither, 16),
        body(0, 0, RotatingM::Neither, 32 | 4),
        body(100_000, 0, RotatingM::Clockwise, 0),
        body(90_000, 90_000, RotatingM::AntiClockwise, 2),
    ];
    let mut expected = query.clone();
    for b in expected.iter_mut() {
        step(b);
    }
    movement(&mut query);
    assert_eq!(query, expected);
    assert_eq!(query[0].transform.rotation, 8_000);
    assert_eq!(query[1].transform.rotation, 352_000);
    assert_eq!(query[1].velocity.linvel, Vec2 { x: -50_000, y: 0 });
    assert_eq!(query[2].transform.rotation, 108_000);
    assert_eq!(query[3].transform.rotation, 90_000);
    assert_eq!(query[3].rotating, Rotating(RotatingM::Neither));
    assert_eq!(query[3].velocity.linvel, Vec2 { x: 0, y: -50_000 });

    let mut nobody: Vec<PaddleBody> = vec![];
    movement(&mut nobody);
    assert!(nobody.is_empty());
}
