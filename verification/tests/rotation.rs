use ppan::compute::{compute, SETTLE_TICKS};
use ppan::input_handlers::NetworkInputHandler;
use ppan::paddle::{Paddle, RotatingM};

const TICK: i64 = 16;

const IDLE: u8 = 0;

const ROTATE_CW: u8 = 16;

const ROTATE_ACW: u8 = 32;

/// Thousandths, from a decimal value.
fn milli(value: f32) -> i64 {
    (value * 1000.0).round() as i64
}

/// A decimal value, from thousandths.
fn decimal(value: i64) -> f32 {
    value as f32 / 1000.0
}

fn paddle_at(rotation: i64, next_stop: i64, rotating: RotatingM) -> Paddle {
    let mut paddle = Paddle::new(0, 400_000, false);
    paddle.set_rotation(rotation);
    assert!(paddle.set_next_stop(next_stop));
    paddle.set_rotating(rotating);
    paddle
}

fn tick(paddle: &mut Paddle, input: u8) {
    compute(&NetworkInputHandler::new(input), paddle, TICK);
}

#[test]
fn rot_right() {
    let mut paddle = Paddle::new(0, milli(0.0), false);
    let handler = NetworkInputHandler::new(16);
    compute(&handler, &mut paddle, milli(16.0 / 1000.0));
    let handler = NetworkInputHandler::new(0);

    for _i in 1..100 {
        compute(&handler, &mut paddle, milli(16.0 / 1000.0));
    }
    assert_eq!(decimal(paddle.rotation()), 90.0);
}

#[test]
fn rot_left() {
    let mut paddle = Paddle::new(0, milli(0.0), false);
    let handler = NetworkInputHandler::new(32);
    compute(&handler, &mut paddle, milli(16.0 / 1000.0));
    let handler = NetworkInputHandler::new(0);

    for _i in 1..100 {
        compute(&handler, &mut paddle, milli(16.0 / 1000.0));
    }
    assert_eq!(decimal(paddle.rotation()), 270.0);
}

#[test]
fn one_clockwise_press_turns_a_quarter() {
    let mut paddle = Paddle::new(0, 400_000, false);
    assert_eq!(paddle.rotation(), 0);
    assert_eq!(paddle.next_stop(), 0);

    tick(&mut paddle, ROTATE_CW);
    assert_eq!(paddle.next_stop(), 90_000);
    assert_eq!(paddle.rotating(), RotatingM::Clockwise);
    assert_eq!(paddle.rotation(), 8_000);
    assert_eq!(paddle.rotation_velocity(), 8_000);

    let expected = [
        16_000, 24_000, 32_000, 40_000, 48_000, 56_000, 63_375, 69_901, 75_571, 80_375, 84_299,
        87_319, 89_390, 90_377, 90_000, 90_000,
    ];
    for rotation in expected {
        tick(&mut paddle, IDLE);
        assert_eq!(paddle.rotation(), rotation);
        assert_eq!(paddle.next_stop(), 90_000);
    }
    assert_eq!(paddle.rotating(), RotatingM::Neither);
    assert_eq!(paddle.rotation_velocity(), 0);
}

#[test]
fn one_anticlockwise_press_turns_a_quarter_back() {
    let mut paddle = Paddle::new(0, 400_000, false);
    tick(&mut paddle, ROTATE_ACW);
    assert_eq!(paddle.next_stop(), 270_000);
    assert_eq!(paddle.rotating(), RotatingM::AntiClockwise);
    assert_eq!(paddle.rotation(), 352_000);
    assert_eq!(paddle.rotation_velocity(), -8_000);

    let expected = [
        344_000, 336_000, 328_000, 320_000, 312_000, 304_000, 296_625, 290_099, 284_429, 279_625,
        275_701, 272_681, 270_610, 269_623, 270_000, 270_000,
    ];
    for rotation in expected {
        tick(&mut paddle, IDLE);
        assert_eq!(paddle.rotation(), rotation);
    }
    assert_eq!(paddle.rotating(), RotatingM::Neither);
}

#[test]
fn a_paddle_on_its_stop_stays_there() {
    for stop in [0, 90_000, 180_000, 270_000] {
        for intent in [RotatingM::Clockwise, RotatingM::AntiClockwise, RotatingM::Neither] {
            let mut paddle = paddle_at(stop, stop, intent);
            for _ in 0..20 {
                tick(&mut paddle, IDLE);
                assert_eq!(paddle.rotation(), stop);
                assert_eq!(paddle.next_stop(), stop);
                assert_eq!(paddle.rotating(), RotatingM::Neither);
                assert_eq!(paddle.rotation_velocity(), 0);
            }
        }
    }
}

#[test]
fn every_turn_settles_within_the_proved_bound() {
    let mut worst = 0;
    for stop in [0, 90_000, 180_000, 270_000] {
        for intent in [RotatingM::Clockwise, RotatingM::AntiClockwise, RotatingM::Neither] {
            let mut rotation = 0;
            while rotation < 360_000 {
                let mut paddle = paddle_at(rotation, stop, intent);
                let mut ticks = 0;
                while !(paddle.rotation() == stop && paddle.rotating() == RotatingM::Neither) {
                    tick(&mut paddle, IDLE);
                    ticks += 1;
                    assert!(ticks <= SETTLE_TICKS);
                    assert_eq!(paddle.next_stop(), stop);
                }
                if ticks > worst {
                    worst = ticks;
                }
                rotation += 61;
            }
        }
    }
    assert!(worst >= 40);
}

#[test]
fn no_tick_turns_further_than_the_largest_step() {
    let inputs = [IDLE, ROTATE_CW, ROTATE_ACW, ROTATE_CW | ROTATE_ACW];
    let mut paddle = Paddle::new(0, 400_000, false);
    for i in 0..4_000usize {
        let before = paddle.rotation();
        let stop_before = paddle.next_stop();
        let input = inputs[(i / 7 + i / 3) % 4];
        tick(&mut paddle, input);
        let v = paddle.rotation_velocity();
        assert!(-8_000 <= v && v <= 8_000);
        assert!(0 <= paddle.rotation() && paddle.rotation() < 360_000);
        assert!([0, 90_000, 180_000, 270_000].contains(&paddle.next_stop()));
        let moved_from_here = (before + v).rem_euclid(360_000) == paddle.rotation();
        let snapped = input == IDLE
            && (stop_before + v).rem_euclid(360_000) == paddle.rotation();
        let snapped_to_new =
            (paddle.next_stop() + v).rem_euclid(360_000) == paddle.rotation();
        assert!(moved_from_here || snapped || snapped_to_new);
    }
}

#[test]
fn an_overshoot_stays_within_the_snap_distance() {
    let mut paddle = paddle_at(89_499, 90_000, RotatingM::Neither);
    tick(&mut paddle, IDLE);
    assert_eq!(paddle.rotation_velocity(), 895);
    assert_eq!(paddle.rotation(), 90_394);
    tick(&mut paddle, IDLE);
    assert_eq!(paddle.rotation(), 90_000);
    assert_eq!(paddle.rotation_velocity(), 0);
}

#[test]
fn the_snap_distance_is_half_a_degree() {
    let mut near = paddle_at(89_500, 90_000, RotatingM::Neither);
    tick(&mut near, IDLE);
    assert_eq!(near.rotation(), 90_000);
    assert_eq!(near.rotation_velocity(), 0);

    let mut far = paddle_at(90_501, 90_000, RotatingM::Neither);
    tick(&mut far, IDLE);
    assert_eq!(far.rotation_velocity(), -895);
    assert_eq!(far.rotation(), 89_606);
}

#[test]
fn clockwise_wins_where_both_are_held() {
    let mut paddle = Paddle::new(0, 400_000, false);
    tick(&mut paddle, ROTATE_CW | ROTATE_ACW);
    assert_eq!(paddle.rotating(), RotatingM::Clockwise);
    assert_eq!(paddle.next_stop(), 90_000);
    assert_eq!(paddle.rotation_velocity(), 8_000);
    assert_eq!(paddle.rotation(), 8_000);
}

#[test]
fn the_next_stop_lies_strictly_ahead() {
    let cases = [
        (0, ROTATE_CW, 90_000),
        (0, ROTATE_ACW, 270_000),
        (45_000, ROTATE_CW, 90_000),
        (45_000, ROTATE_ACW, 0),
        (90_000, ROTATE_CW, 180_000),
        (90_000, ROTATE_ACW, 0),
        (89_999, ROTATE_CW, 90_000),
        (90_001, ROTATE_ACW, 90_000),
        (270_000, ROTATE_CW, 0),
        (359_999, ROTATE_CW, 0),
        (359_999, ROTATE_ACW, 270_000),
        (1, ROTATE_ACW, 0),
    ];
    for (rotation, input, stop) in cases {
        let mut paddle = paddle_at(rotation, 180_000, RotatingM::Neither);
        tick(&mut paddle, input);
        assert_eq!(paddle.next_stop(), stop);
    }
}

#[test]
fn held_rotation_keeps_turning() {
    let mut paddle = Paddle::new(0, 400_000, false);
    for i in 1..=45 {
        tick(&mut paddle, ROTATE_CW);
        assert_eq!(paddle.rotation(), (8_000 * i) % 360_000);
        assert_eq!(paddle.rotation_velocity(), 8_000);
    }
    assert_eq!(paddle.rotation(), 0);
}

#[test]
fn a_press_within_the_snap_distance_starts_from_the_stop() {
    let mut paddle = paddle_at(89_800, 0, RotatingM::Neither);
    tick(&mut paddle, ROTATE_CW);
    assert_eq!(paddle.next_stop(), 90_000);
    assert_eq!(paddle.rotation(), 98_000);
    assert_eq!(paddle.rotating(), RotatingM::Neither);
    for _ in 0..SETTLE_TICKS {
        tick(&mut paddle, IDLE);
    }
    assert_eq!(paddle.rotation(), 90_000);
}

#[test]
fn an_intent_is_given_up_near_the_target() {
    let mut near = paddle_at(61_000, 90_000, RotatingM::Clockwise);
    tick(&mut near, IDLE);
    assert_eq!(near.rotating(), RotatingM::Neither);
    assert_eq!(near.rotation(), 67_811);

    let mut not_yet = paddle_at(60_000, 90_000, RotatingM::Clockwise);
    tick(&mut not_yet, IDLE);
    assert_eq!(not_yet.rotating(), RotatingM::Clockwise);
    assert_eq!(not_yet.rotation(), 66_928);
}

#[test]
fn an_intent_takes_its_own_arc_however_long() {
    let mut with_intent = paddle_at(100_000, 0, RotatingM::Clockwise);
    tick(&mut with_intent, IDLE);
    assert_eq!(with_intent.rotation(), 108_000);
    assert_eq!(with_intent.rotating(), RotatingM::Clockwise);

    let mut without = paddle_at(100_000, 0, RotatingM::Neither);
    tick(&mut without, IDLE);
    assert_eq!(without.rotation(), 92_000);
}

#[test]
fn equal_arcs_are_taken_anticlockwise() {
    let mut paddle = paddle_at(180_000, 0, RotatingM::Neither);
    tick(&mut paddle, IDLE);
    assert_eq!(paddle.rotation(), 172_000);
    assert_eq!(paddle.rotation_velocity(), -8_000);
}

#[test]
fn the_shorter_arc_may_cross_zero() {
    let mut paddle = paddle_at(350_000, 0, RotatingM::Neither);
    tick(&mut paddle, IDLE);
    assert_eq!(paddle.rotation_velocity(), 4_000);
    assert_eq!(paddle.rotation(), 354_000);
    for _ in 0..SETTLE_TICKS {
        tick(&mut paddle, IDLE);
    }
    assert_eq!(paddle.rotation(), 0);
}
