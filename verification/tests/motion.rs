use ppan::compute::compute;
use ppan::input_handlers::{EmptyInputHandler, NetworkInputHandler};
use ppan::paddle::{Paddle, RotatingM};

const UP: u8 = 1;

const DOWN: u8 = 2;

const LEFT: u8 = 4;

const RIGHT: u8 = 8;

fn tick(paddle: &mut Paddle, input: u8, delta_time: i64) {
    compute(&NetworkInputHandler::new(input), paddle, delta_time);
}

#[test]
fn a_new_paddle_rests_at_mid_height() {
    let paddle = Paddle::new(3, 20_000, true);
    assert_eq!(paddle.id(), 3);
    assert!(paddle.is_remote());
    assert_eq!(paddle.x(), 20_000);
    assert_eq!(paddle.y(), 300_000);
    assert_eq!(paddle.width(), 30_000);
    assert_eq!(paddle.height(), 150_000);
    assert_eq!(paddle.rotation(), 0);
    assert_eq!(paddle.rotation_velocity(), 0);
    assert_eq!(paddle.velocity_x(), 0);
    assert_eq!(paddle.velocity_y(), 0);
    assert_eq!(paddle.friction(), 100);
    assert_eq!(paddle.acceleration(), 100_000);
    assert_eq!(paddle.next_stop(), 0);
    assert_eq!(paddle.rotating(), RotatingM::Neither);
    assert!(!Paddle::new(0, 0, false).is_remote());
}

#[test]
fn a_held_direction_adds_speed_then_friction_takes_a_tenth() {
    let mut paddle = Paddle::new(0, 400_000, false);
    tick(&mut paddle, RIGHT, 16);
    assert_eq!(paddle.x(), 401_600);
    assert_eq!(paddle.velocity_x(), 90_000);
    assert_eq!(paddle.y(), 300_000);
    assert_eq!(paddle.velocity_y(), 0);

    tick(&mut paddle, RIGHT, 16);
    assert_eq!(paddle.x(), 401_600 + 3_040);
    assert_eq!(paddle.velocity_x(), 171_000);

    tick(&mut paddle, 0, 16);
    assert_eq!(paddle.x(), 404_640 + 2_736);
    assert_eq!(paddle.velocity_x(), 153_900);
}

#[test]
fn up_shrinks_y_and_down_grows_it() {
    let mut paddle = Paddle::new(0, 400_000, false);
    tick(&mut paddle, UP, 16);
    assert_eq!(paddle.y(), 298_400);
    assert_eq!(paddle.velocity_y(), -90_000);

    let mut paddle = Paddle::new(0, 400_000, false);
    tick(&mut paddle, DOWN, 16);
    assert_eq!(paddle.y(), 301_600);
    assert_eq!(paddle.velocity_y(), 90_000);

    let mut paddle = Paddle::new(0, 400_000, false);
    tick(&mut paddle, LEFT, 16);
    assert_eq!(paddle.x(), 398_400);
    assert_eq!(paddle.velocity_x(), -90_000);
}

#[test]
fn opposite_directions_cancel() {
    let mut paddle = Paddle::new(0, 400_000, false);
    tick(&mut paddle, LEFT | RIGHT | UP | DOWN, 16);
    assert_eq!(paddle.x(), 400_000);
    assert_eq!(paddle.y(), 300_000);
    assert_eq!(paddle.velocity_x(), 0);
    assert_eq!(paddle.velocity_y(), 0);
}

#[test]
fn speed_is_held_to_the_limit_on_the_side_that_is_pushed() {
    let mut paddle = Paddle::new(0, 400_000, false);
    assert!(paddle.set_friction(0));
    assert!(paddle.set_velocity(1_450_000, -1_450_000));
    tick(&mut paddle, RIGHT | UP, 1);
    assert_eq!(paddle.velocity_x(), 1_500_000);
    assert_eq!(paddle.velocity_y(), -1_500_000);
    assert_eq!(paddle.x(), 401_500);
    assert_eq!(paddle.y(), 298_500);

    // Right is read before left, so the push to the right is cut off first.
    let mut paddle = Paddle::new(0, 400_000, false);
    assert!(paddle.set_friction(0));
    assert!(paddle.set_velocity(1_450_000, 1_450_000));
    tick(&mut paddle, LEFT | RIGHT | UP | DOWN, 1);
    assert_eq!(paddle.velocity_x(), 1_400_000);
    // Up is read before down.
    assert_eq!(paddle.velocity_y(), 1_450_000);
}

#[test]
fn friction_rounds_toward_zero() {
    let mut paddle = Paddle::new(0, 400_000, false);
    assert!(paddle.set_friction(1));
    assert!(paddle.set_velocity(1_999, -1_999));
    tick(&mut paddle, 0, 0);
    assert_eq!(paddle.velocity_x(), 1_997);
    assert_eq!(paddle.velocity_y(), -1_997);

    let mut paddle = Paddle::new(0, 400_000, false);
    assert!(paddle.set_velocity(1, -1));
    tick(&mut paddle, 0, 0);
    assert_eq!(paddle.velocity_x(), 0);
    assert_eq!(paddle.velocity_y(), 0);
}

#[test]
fn the_way_of_a_tick_rounds_toward_zero() {
    let mut paddle = Paddle::new(0, 400_000, false);
    assert!(paddle.set_friction(0));
    assert!(paddle.set_velocity(1_999, -1_999));
    tick(&mut paddle, 0, 1);
    assert_eq!(paddle.x(), 400_001);
    assert_eq!(paddle.y(), 299_999);
    tick(&mut paddle, 0, -1);
    assert_eq!(paddle.x(), 400_000);
    assert_eq!(paddle.y(), 300_000);
}

#[test]
fn full_friction_stops_the_paddle() {
    let mut paddle = Paddle::new(0, 400_000, false);
    assert!(paddle.set_friction(1_000));
    tick(&mut paddle, RIGHT | DOWN, 16);
    assert_eq!(paddle.x(), 401_600);
    assert_eq!(paddle.y(), 301_600);
    assert_eq!(paddle.velocity_x(), 0);
    assert_eq!(paddle.velocity_y(), 0);
}

#[test]
fn the_table_edge_holds_the_paddle_and_stops_it() {
    // Left edge: half the width.
    let mut paddle = Paddle::new(0, 0, false);
    assert!(paddle.set_velocity(500_000, 0));
    compute(&EmptyInputHandler {}, &mut paddle, 16);
    assert_eq!(paddle.x(), 15_000);
    assert_eq!(paddle.velocity_x(), 0);

    // Right edge: the table's width less half the paddle's.
    let mut paddle = Paddle::new(0, 790_000, false);
    assert!(paddle.set_velocity(1_500_000, 0));
    compute(&EmptyInputHandler {}, &mut paddle, 16);
    assert_eq!(paddle.x(), 785_000);
    assert_eq!(paddle.velocity_x(), 0);

    // Top edge.
    let mut paddle = Paddle::new(0, 400_000, false);
    paddle.set_position(400_000, 100);
    assert!(paddle.set_velocity(0, -1_000_000));
    compute(&EmptyInputHandler {}, &mut paddle, 16);
    assert_eq!(paddle.y(), 0);
    assert_eq!(paddle.velocity_y(), 0);

    // Bottom edge.
    let mut paddle = Paddle::new(0, 400_000, false);
    paddle.set_position(400_000, 599_000);
    assert!(paddle.set_velocity(0, 1_000_000));
    compute(&EmptyInputHandler {}, &mut paddle, 16);
    assert_eq!(paddle.y(), 600_000);
    assert_eq!(paddle.velocity_y(), 0);

    // Exactly on the edge is not held back.
    let mut paddle = Paddle::new(0, 785_000, false);
    assert!(paddle.set_velocity(1_000, 0));
    compute(&EmptyInputHandler {}, &mut paddle, 0);
    assert_eq!(paddle.x(), 785_000);
    assert_eq!(paddle.velocity_x(), 900);
}

#[test]
fn the_paddle_lies_on_the_table_after_every_tick() {
    let speeds = [-1_500_000, -1_000_001, -1, 0, 1, 777_777, 1_500_000];
    let frictions = [0, 1, 100, 999, 1_000];
    let ticks = [i64::MIN, -1_000_000, -16, 0, 1, 16, 1_000, i64::MAX];
    let places = [i64::MIN, -1, 0, 15_000, 400_000, 785_000, 800_000, i64::MAX];
    let widths = [0, 1, 30_000, 799_999, 800_000];
    for vx in speeds {
        for friction in frictions {
            for delta_time in ticks {
                for place in places {
                    for width in widths {
                        let mut paddle = Paddle::new(0, place, false);
                        paddle.set_position(place, place);
                        assert!(paddle.set_size(width, 150_000));
                        assert!(paddle.set_friction(friction));
                        assert!(paddle.set_velocity(vx, -vx));
                        tick(&mut paddle, 0, delta_time);
                        let lo = width / 2;
                        let hi = 800_000 - width / 2;
                        assert!(lo <= paddle.x() && paddle.x() <= hi);
                        assert!(0 <= paddle.y() && paddle.y() <= 600_000);
                        let free_x = place as i128 + (vx as i128 * delta_time as i128) / 1000;
                        if free_x < lo as i128 || free_x > hi as i128 {
                            assert_eq!(paddle.velocity_x(), 0);
                        } else {
                            assert_eq!(paddle.x() as i128, free_x);
                            assert_eq!(paddle.velocity_x(), vx * (1000 - friction) / 1000);
                        }
                        let free_y = place as i128 + (-vx as i128 * delta_time as i128) / 1000;
                        if free_y < 0 || free_y > 600_000 {
                            assert_eq!(paddle.velocity_y(), 0);
                        } else {
                            assert_eq!(paddle.y() as i128, free_y);
                            assert_eq!(paddle.velocity_y(), -vx * (1000 - friction) / 1000);
                        }
                    }
                }
            }
        }
    }
}

#[test]
fn setters_refuse_what_would_break_a_paddle() {
    let mut paddle = Paddle::new(0, 400_000, false);
    let untouched = paddle;

    assert!(!paddle.set_next_stop(45_000));
    assert!(!paddle.set_next_stop(360_000));
    assert!(!paddle.set_next_stop(-90_000));
    assert!(!paddle.set_velocity(1_500_001, 0));
    assert!(!paddle.set_velocity(0, -1_500_001));
    assert!(!paddle.set_size(800_001, 0));
    assert!(!paddle.set_size(-1, 0));
    assert!(!paddle.set_size(0, -1));
    assert!(!paddle.set_friction(1_001));
    assert!(!paddle.set_friction(-1));
    assert!(!paddle.set_acceleration(-1));
    assert!(!paddle.set_acceleration(1_500_001));
    assert_eq!(paddle, untouched);

    assert!(paddle.set_next_stop(270_000));
    assert_eq!(paddle.next_stop(), 270_000);
    assert!(paddle.set_velocity(-1_500_000, 1_500_000));
    assert_eq!(paddle.velocity_x(), -1_500_000);
    assert_eq!(paddle.velocity_y(), 1_500_000);
    assert!(paddle.set_size(800_000, 0));
    assert_eq!(paddle.width(), 800_000);
    assert_eq!(paddle.height(), 0);
    assert!(paddle.set_friction(1_000));
    assert_eq!(paddle.friction(), 1_000);
    assert!(paddle.set_acceleration(1_500_000));
    assert_eq!(paddle.acceleration(), 1_500_000);
    paddle.set_rotating(RotatingM::AntiClockwise);
    assert_eq!(paddle.rotating(), RotatingM::AntiClockwise);
}

#[test]
fn set_rotation_wraps_into_the_circle() {
    let mut paddle = Paddle::new(0, 400_000, false);
    paddle.set_rotation(-90_000);
    assert_eq!(paddle.rotation(), 270_000);
    paddle.set_rotation(720_001);
    assert_eq!(paddle.rotation(), 1);
    paddle.set_rotation(360_000);
    assert_eq!(paddle.rotation(), 0);
    paddle.set_rotation(-1);
    assert_eq!(paddle.rotation(), 359_999);
    paddle.set_rotation(i64::MIN);
    assert_eq!(paddle.rotation(), 304_192);
    paddle.set_rotation(i64::MAX);
    assert_eq!(paddle.rotation(), 55_807);
}

#[test]
fn rotating_default_is_neither() {
    assert_eq!(RotatingM::default(), RotatingM::Neither);
}
