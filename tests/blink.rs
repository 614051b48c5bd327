use blink1::blink::{Blinker, Level, Status};

#[test]
fn toggled_inverts_level() {
    assert_eq!(Level::Low.toggled(), Level::High);
    assert_eq!(Level::High.toggled(), Level::Low);
    assert_eq!(Level::High.toggled().toggled(), Level::High);
}

#[test]
fn high_start_returns_after_full_iteration() {
    let mut b = Blinker::new(Level::High, Level::Low, false, 1000);
    let first = b.step();
    assert_eq!(first.level, Level::Low);
    assert_eq!(b.level(), Level::Low);
    assert_eq!(first.wait_ms, 1000);
    let second = b.step();
    assert_eq!(second.level, Level::High);
    assert_eq!(second.wait_ms, 1000);
    assert_eq!(b.level(), Level::High);
}

#[test]
fn two_transitions_restore_level_from_either_start() {
    for start in [Level::Low, Level::High] {
        let mut b = Blinker::new(start, Level::High, true, 5);
        for _ in 0..10 {
            let before = b.level();
            b.step();
            assert_ne!(b.level(), before);
            b.step();
            assert_eq!(b.level(), before);
        }
    }
}

#[test]
fn bounded_run_never_reaches_a_final_state() {
    let mut b = Blinker::new(Level::Low, Level::High, false, 1);
    for _ in 0..10_000 {
        assert!(b.has_next());
        b.step();
    }
    assert!(b.has_next());
    assert_eq!(b.on_phases(), 0);
}

#[test]
fn statuses_follow_polarity() {
    let mut b = Blinker::new(Level::High, Level::Low, false, 1000);
    assert_eq!(b.step().status, Status::On(None));
    assert_eq!(b.step().status, Status::Off);
    let mut c = Blinker::new(Level::High, Level::High, false, 1000);
    assert_eq!(c.step().status, Status::Off);
    assert_eq!(c.step().status, Status::On(None));
}

#[test]
fn debug_counter_numbers_on_phases() {
    let mut b = Blinker::new(Level::High, Level::Low, true, 1000);
    assert_eq!(b.on_phases(), 0);
    for n in 1..=25u32 {
        let on = b.step();
        assert_eq!(on.level, Level::Low);
        assert_eq!(on.status, Status::On(Some(n)));
        assert_eq!(b.on_phases(), n);
        let off = b.step();
        assert_eq!(off.level, Level::High);
        assert_eq!(off.status, Status::Off);
        assert_eq!(b.on_phases(), n);
    }
}

#[test]
fn counter_stops_at_its_limit() {
    let mut b = Blinker::new(Level::High, Level::Low, true, 1);
    let mut n: u32 = 0;
    while n < 3 {
        assert!(b.has_next());
        b.step();
        b.step();
        n += 1;
    }
    assert_eq!(b.on_phases(), 3);
    let off_start = Blinker::new(Level::Low, Level::Low, true, 1);
    assert!(off_start.has_next());
}
