use tictactoe::syncer::Syncer;

#[test]
fn new_sets_the_first_deadline_one_interval_out() {
    let s = Syncer::new(250);
    assert_eq!(s.interval(), 250);
    assert_eq!(s.deadline(), 250);
    assert!(!s.exhausted());
}

#[test]
fn from_fps_divides_a_second() {
    assert_eq!(Syncer::from_fps(60).interval(), 16_666_666);
    assert_eq!(Syncer::from_fps(1).interval(), 1_000_000_000);
    assert_eq!(Syncer::from_fps(30).deadline(), 33_333_333);
    assert_eq!(Syncer::from_fps(u32::MAX).interval(), 0);
}

#[test]
fn advance_waits_until_the_deadline() {
    let mut s = Syncer::new(100);
    assert_eq!(s.advance(30), 70);
    assert_eq!(s.deadline(), 200);
    assert_eq!(s.advance(100), 100);
    assert_eq!(s.deadline(), 300);
}

#[test]
fn an_overrun_does_not_wait_and_does_not_shift_the_deadline() {
    let mut s = Syncer::new(100);
    assert_eq!(s.advance(100), 0);
    assert_eq!(s.deadline(), 200);
    assert_eq!(s.advance(950), 0);
    assert_eq!(s.deadline(), 300);
    assert_eq!(s.advance(960), 0);
    assert_eq!(s.deadline(), 400);
    assert_eq!(s.interval(), 100);
}

#[test]
fn ticks_in_a_row_take_one_interval_each() {
    let interval = 40u128;
    let mut s = Syncer::new(interval);
    let mut now = 0u128;
    for k in 1..=25u128 {
        now += s.advance(now);
        assert_eq!(now, k * interval);
    }
}

#[test]
fn a_slow_frame_is_made_up_for() {
    let mut s = Syncer::new(10);
    let mut now = 0u128;
    now += s.advance(now);
    assert_eq!(now, 10);
    now += 17;
    now += s.advance(now);
    assert_eq!(now, 27);
    now += s.advance(now);
    assert_eq!(now, 30);
    now += s.advance(now);
    assert_eq!(now, 40);
}

#[test]
fn sync_moves_the_deadline_by_one_interval() {
    let mut s = Syncer::new(5_000_000_000);
    let wait = s.sync();
    assert!(wait <= 5_000_000_000);
    assert_eq!(s.deadline(), 10_000_000_000);
    let wait = s.sync();
    assert!(wait <= 10_000_000_000);
    assert_eq!(s.deadline(), 15_000_000_000);
    assert_eq!(s.interval(), 5_000_000_000);
}

#[test]
fn exhausted_at_the_end_of_the_clock() {
    let mut s = Syncer::new(u128::MAX / 2);
    assert!(!s.exhausted());
    s.advance(0);
    assert!(s.exhausted());
    let still = Syncer::new(0);
    assert!(!still.exhausted());
}
