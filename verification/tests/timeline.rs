use ppan::calc::{Vec2, Velocity};
use ppan::error::SessionError;
use ppan::game::{Ball, EntityId};
use ppan::paddle::{Paddle, RotatingM};
use ppan::snapshot::SnapshotBuffer;
use ppan::state::{GameState, InputStatus, TaggedInput};
use ppan::timeline::{Request, Timeline};

const TICK: i64 = 16;

fn two_paddles() -> GameState {
    GameState::new(
        vec![Paddle::new(0, 15_000, false), Paddle::new(1, 785_000, true)],
        vec![Ball {
            entity: EntityId { bits: 9 },
            velocity: Velocity { linvel: Vec2 { x: 1_000, y: 2_000 } },
        }],
    )
}

fn confirmed(input: u8) -> TaggedInput {
    TaggedInput { input, status: InputStatus::Confirmed }
}

fn predicted(input: u8) -> TaggedInput {
    TaggedInput { input, status: InputStatus::Predicted }
}

fn advance(a: TaggedInput, b: TaggedInput) -> Request {
    Request::AdvanceFrame { inputs: vec![a, b] }
}

fn timeline() -> Timeline {
    Timeline::new(two_paddles(), 10, TICK)
}

#[test]
fn requests_are_carried_out_in_order() {
    let mut t = timeline();
    assert_eq!(t.current_frame(), 0);
    assert_eq!(t.state(), &two_paddles());
    let requests = vec![
        Request::SaveGameState { frame: 0 },
        advance(confirmed(16), confirmed(32)),
        Request::SaveGameState { frame: 1 },
        advance(confirmed(0), confirmed(0)),
    ];
    assert_eq!(t.apply_all(&requests), Ok(()));
    assert_eq!(t.current_frame(), 2);
    let paddles = t.state().paddles();
    assert_eq!(paddles[0].rotation(), 16_000);
    assert_eq!(paddles[0].next_stop(), 90_000);
    assert_eq!(paddles[0].rotating(), RotatingM::Clockwise);
    assert_eq!(paddles[1].rotation(), 344_000);
    assert_eq!(paddles[1].next_stop(), 270_000);
    assert_eq!(t.state().balls(), two_paddles().balls());
}

#[test]
fn the_id_of_a_paddle_selects_its_inputs() {
    let state = GameState::new(
        vec![Paddle::new(1, 15_000, true), Paddle::new(0, 785_000, false)],
        vec![],
    );
    let mut t = Timeline::new(state, 4, TICK);
    assert_eq!(t.apply(&advance(confirmed(16), confirmed(32))), Ok(()));
    let paddles = t.state().paddles();
    assert_eq!(paddles[0].id(), 1);
    assert_eq!(paddles[0].next_stop(), 270_000);
    assert_eq!(paddles[1].id(), 0);
    assert_eq!(paddles[1].next_stop(), 90_000);
}

#[test]
fn a_player_who_is_gone_holds_nothing() {
    let mut t = timeline();
    let gone = TaggedInput { input: 16 | 8, status: InputStatus::Disconnected };
    assert_eq!(t.apply(&advance(confirmed(16 | 8), gone)), Ok(()));
    let paddles = t.state().paddles();
    assert_eq!(paddles[0].rotation(), 8_000);
    assert_eq!(paddles[0].velocity_x(), 90_000);
    assert_eq!(paddles[1].rotation(), 0);
    assert_eq!(paddles[1].velocity_x(), 0);
    assert_eq!(paddles[1].next_stop(), 0);
}

#[test]
fn the_status_of_an_input_changes_nothing_else() {
    let mut one = timeline();
    let mut other = timeline();
    for frame in 0u64..300 {
        let a = (frame * 7 % 64) as u8;
        let b = (frame * 13 % 64) as u8;
        assert_eq!(one.apply(&advance(confirmed(a), confirmed(b))), Ok(()));
        assert_eq!(other.apply(&advance(predicted(a | 0x80), predicted(b | 0x40))), Ok(()));
        assert_eq!(one.state(), other.state());
    }
    assert_eq!(one.current_frame(), 300);
}

#[test]
fn two_runs_under_the_same_inputs_agree() {
    let mut one = timeline();
    let mut other = Timeline::new(two_paddles(), 0, TICK);
    let mut step: u32 = 7;
    for _ in 0..500 {
        step = step.wrapping_mul(1_664_525).wrapping_add(1_013_904_223);
        let a = (step >> 8) as u8;
        let b = (step >> 16) as u8;
        assert_eq!(one.apply(&advance(confirmed(a), confirmed(b))), Ok(()));
        assert_eq!(other.apply(&advance(confirmed(a), confirmed(b))), Ok(()));
        assert_eq!(one.state(), other.state());
    }

    // A different input somewhere gives a different match.
    let mut third = timeline();
    assert_eq!(third.apply(&advance(confirmed(0), confirmed(16))), Ok(()));
    let mut fourth = timeline();
    assert_eq!(fourth.apply(&advance(confirmed(0), confirmed(0))), Ok(()));
    assert_ne!(third.state(), fourth.state());
}

#[test]
fn a_rollback_loses_nothing() {
    let frames = [(16u8, 32u8), (1, 2), (0, 4), (8, 0), (48, 63), (0, 0), (0, 0)];

    let mut t = timeline();
    let mut first = vec![Request::SaveGameState { frame: 0 }];
    for (a, b) in frames {
        first.push(advance(predicted(a), predicted(b)));
    }
    assert_eq!(t.apply_all(&first), Ok(()));
    let before_frame = t.current_frame();
    let before = t.state().clone();
    assert_eq!(before_frame, 7);
    assert_ne!(&before, &two_paddles());

    let mut second = vec![Request::LoadGameState { frame: 0 }];
    for (a, b) in frames {
        second.push(advance(confirmed(a), confirmed(b)));
    }
    assert_eq!(t.apply_all(&second), Ok(()));
    assert_eq!(t.current_frame(), before_frame);
    assert_eq!(t.state(), &before);
}

#[test]
fn a_load_brings_the_saved_match_back() {
    let mut t = timeline();
    assert_eq!(
        t.apply_all(&vec![
            advance(confirmed(16), confirmed(32)),
            Request::SaveGameState { frame: 1 },
        ]),
        Ok(())
    );
    let saved = t.state().clone();
    assert_eq!(
        t.apply_all(&vec![
            advance(predicted(1), predicted(2)),
            advance(predicted(1), predicted(2)),
        ]),
        Ok(())
    );
    assert_ne!(t.state(), &saved);
    assert_eq!(t.current_frame(), 3);
    assert_eq!(t.apply(&Request::LoadGameState { frame: 1 }), Ok(()));
    assert_eq!(t.state(), &saved);
    assert_eq!(t.current_frame(), 1);
}

#[test]
fn requests_that_do_not_fit_are_refused_and_stop_the_batch() {
    let mut t = timeline();
    assert_eq!(
        t.apply(&Request::SaveGameState { frame: 1 }),
        Err(SessionError::InvalidRequest)
    );
    assert_eq!(
        t.apply(&Request::LoadGameState { frame: 0 }),
        Err(SessionError::InvalidRequest)
    );
    assert_eq!(
        t.apply(&Request::AdvanceFrame { inputs: vec![confirmed(16)] }),
        Err(SessionError::InvalidRequest)
    );
    assert_eq!(
        t.apply(&Request::AdvanceFrame { inputs: vec![] }),
        Err(SessionError::InvalidRequest)
    );
    assert_eq!(t.state(), &two_paddles());
    assert_eq!(t.current_frame(), 0);

    // The first two requests are carried out, the fourth is never reached.
    let batch = vec![
        Request::SaveGameState { frame: 0 },
        advance(confirmed(16), confirmed(0)),
        Request::SaveGameState { frame: 5 },
        advance(confirmed(16), confirmed(0)),
    ];
    assert_eq!(t.apply_all(&batch), Err(SessionError::InvalidRequest));
    assert_eq!(t.current_frame(), 1);
    assert_eq!(t.state().paddles()[0].rotation(), 8_000);

    // A frame that lies ahead cannot be loaded, even if the history holds it.
    assert_eq!(t.apply(&Request::SaveGameState { frame: 1 }), Ok(()));
    assert_eq!(t.apply(&Request::LoadGameState { frame: 0 }), Ok(()));
    assert_eq!(
        t.apply(&Request::LoadGameState { frame: 1 }),
        Err(SessionError::InvalidRequest)
    );
    assert_eq!(t.current_frame(), 0);

    assert_eq!(t.apply_all(&vec![]), Ok(()));
}

#[test]
fn more_inputs_than_paddles_are_welcome() {
    let mut t = timeline();
    let inputs = vec![confirmed(16), confirmed(32), confirmed(63)];
    assert_eq!(t.apply(&Request::AdvanceFrame { inputs }), Ok(()));
    assert_eq!(t.state().paddles()[1].next_stop(), 270_000);
}

#[test]
fn the_history_is_as_long_as_it_was_made() {
    let mut t = Timeline::new(two_paddles(), 3, TICK);
    for frame in 0u64..3 {
        assert_eq!(
            t.apply_all(&vec![
                Request::SaveGameState { frame },
                advance(confirmed(0), confirmed(0)),
            ]),
            Ok(())
        );
    }
    // Three cells: frames 0, 1 and 2 are all there.
    assert_eq!(t.apply(&Request::LoadGameState { frame: 0 }), Ok(()));
    assert_eq!(
        t.apply_all(&vec![
            advance(confirmed(0), confirmed(0)),
            advance(confirmed(0), confirmed(0)),
            advance(confirmed(0), confirmed(0)),
            Request::SaveGameState { frame: 3 },
        ]),
        Ok(())
    );
    // Frame 3 took the cell of frame 0.
    assert_eq!(
        t.apply(&Request::LoadGameState { frame: 0 }),
        Err(SessionError::InvalidRequest)
    );
    assert_eq!(t.apply(&Request::LoadGameState { frame: 1 }), Ok(()));

    // Without cells nothing is kept.
    let mut none = Timeline::new(two_paddles(), 0, TICK);
    assert_eq!(none.apply(&Request::SaveGameState { frame: 0 }), Ok(()));
    assert_eq!(
        none.apply(&Request::LoadGameState { frame: 0 }),
        Err(SessionError::InvalidRequest)
    );
}

#[test]
fn a_snapshot_buffer_is_a_ring() {
    let mut one = two_paddles();
    one.advance(&vec![confirmed(16), confirmed(0)], TICK);
    let mut two = one.clone();
    two.advance(&vec![confirmed(0), confirmed(32)], TICK);

    let mut buffer = SnapshotBuffer::new(3);
    assert_eq!(buffer.load(0), None);
    buffer.save(0, &two_paddles());
    buffer.save(1, &one);
    buffer.save(2, &two);
    assert_eq!(buffer.load(0), Some(two_paddles()));
    assert_eq!(buffer.load(1), Some(one.clone()));
    assert_eq!(buffer.load(2), Some(two.clone()));
    assert_eq!(buffer.load(3), None);

    buffer.save(3, &one);
    assert_eq!(buffer.load(0), None);
    assert_eq!(buffer.load(3), Some(one.clone()));
    assert_eq!(buffer.load(1), Some(one.clone()));

    buffer.save(1, &two);
    assert_eq!(buffer.load(1), Some(two.clone()));
    buffer.save(u64::MAX, &two);
    assert_eq!(buffer.load(u64::MAX), Some(two.clone()));

    // A saved match is a copy: what happens to the live match later is not seen.
    let mut live = two_paddles();
    let mut lone = SnapshotBuffer::new(1);
    lone.save(4, &live);
    live.advance(&vec![confirmed(16), confirmed(16)], TICK);
    assert_eq!(lone.load(4), Some(two_paddles()));

    let mut none = SnapshotBuffer::new(0);
    none.save(0, &one);
    assert_eq!(none.load(0), None);
}

#[test]
fn a_match_advances_each_paddle_by_one_tick() {
    let mut state = two_paddles();
    assert!(state.driven_by(2));
    assert!(state.driven_by(3));
    assert!(!state.driven_by(1));
    assert!(!state.driven_by(0));
    state.advance(&vec![confirmed(8), confirmed(4)], TICK);
    assert_eq!(state.paddles()[0].x(), 16_600);
    assert_eq!(state.paddles()[0].velocity_x(), 90_000);
    assert_eq!(state.paddles()[1].x(), 783_400);
    assert_eq!(state.paddles()[1].velocity_x(), -90_000);
    assert_eq!(state.balls(), two_paddles().balls());
    assert!(GameState::new(vec![], vec![]).driven_by(0));
}

#[test]
fn every_error_has_its_sentence() {
    let all = [
        SessionError::NotSynchronized,
        SessionError::PredictionThreshold,
        SessionError::InvalidRequest,
        SessionError::PlayerDisconnected,
    ];
    for (i, a) in all.iter().enumerate() {
        assert!(!a.message().is_empty());
        for b in &all[i + 1..] {
            assert_ne!(a.message(), b.message());
        }
    }
    assert_eq!(SessionError::PlayerDisconnected.message(), "the player is disconnected");
}
