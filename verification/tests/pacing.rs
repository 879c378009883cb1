use ppan::pacing::{FramePacer, MICROS_PER_SECOND, TICKS_PER_SECOND};

#[test]
fn sixty_ticks_per_second_are_sixteen_thousandths_each() {
    assert_eq!(TICKS_PER_SECOND, 60);
    assert_eq!(MICROS_PER_SECOND, 1_000_000);
    let pacer = FramePacer::new(TICKS_PER_SECOND).unwrap();
    assert_eq!(pacer.delta_time(), 16);
    assert_eq!(FramePacer::new(1).unwrap().delta_time(), 1_000);
    assert_eq!(FramePacer::new(1_000).unwrap().delta_time(), 1);
    assert_eq!(FramePacer::new(1_001).unwrap().delta_time(), 0);
}

#[test]
fn a_rate_must_be_positive_and_at_most_a_tick_per_microsecond() {
    assert_eq!(FramePacer::new(0), None);
    assert_eq!(FramePacer::new(1_000_001), None);
    assert_eq!(FramePacer::new(u32::MAX), None);
    assert!(FramePacer::new(1).is_some());
    assert!(FramePacer::new(1_000_000).is_some());
}

#[test]
fn time_that_is_not_worth_a_tick_is_kept() {
    let mut pacer = FramePacer::new(60).unwrap();
    assert_eq!(pacer.elapse(16_665), 0);
    assert_eq!(pacer.elapse(1), 1);
    assert_eq!(pacer.elapse(10_000), 0);
    assert_eq!(pacer.elapse(10_000), 1);
    assert_eq!(pacer.elapse(13_331), 0);
    assert_eq!(pacer.elapse(1), 1);
    assert_eq!(pacer.elapse(0), 0);
    assert_eq!(pacer.elapse(50_000), 3);
    assert_eq!(pacer.elapse(16_663), 0);
    assert_eq!(pacer.elapse(1), 1);
}

#[test]
fn no_time_is_lost_and_none_is_counted_twice() {
    let mut pacer = FramePacer::new(60).unwrap();
    let mut due: u64 = 0;
    let mut passed: u64 = 0;
    let mut step: u32 = 1;
    for _ in 0..10_000 {
        step = step.wrapping_mul(1_664_525).wrapping_add(1_013_904_223);
        let elapsed = step % 40_000;
        passed += elapsed as u64;
        due += pacer.elapse(elapsed) as u64;
        assert_eq!(due, passed / 16_666);
    }
}

#[test]
fn the_longest_stretch_is_counted_in_full() {
    let mut fine = FramePacer::new(1_000_000).unwrap();
    assert_eq!(fine.elapse(u32::MAX), u32::MAX);
    assert_eq!(fine.elapse(u32::MAX), u32::MAX);

    let mut coarse = FramePacer::new(1).unwrap();
    assert_eq!(coarse.elapse(999_999), 0);
    assert_eq!(coarse.elapse(u32::MAX), 4_295);
    assert_eq!(coarse.elapse(32_706), 1);

    let mut half = FramePacer::new(500_000).unwrap();
    assert_eq!(half.elapse(1), 0);
    assert_eq!(half.elapse(u32::MAX), 2_147_483_648);
}
