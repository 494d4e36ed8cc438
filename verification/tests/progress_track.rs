use lms::progress::{progress_init, Progress};

#[test]
fn fresh_counter_is_empty() {
    let p = Progress::new();
    assert_eq!(p.position(), 0);
    assert_eq!(p.length(), 0);
}

#[test]
fn init_sets_total_and_resets_position() {
    let mut p = Progress::new();
    p.inc(3);
    progress_init(&mut p, 10);
    assert_eq!(p.length(), 10);
    assert_eq!(p.position(), 0);
}

#[test]
fn increments_accumulate() {
    let mut p = Progress::new();
    progress_init(&mut p, 6);
    p.inc(1);
    p.inc(2);
    p.inc(1);
    assert_eq!(p.position(), 4);
    assert_eq!(p.length(), 6);
}

#[test]
fn increment_saturates() {
    let mut p = Progress::new();
    progress_init(&mut p, 5);
    p.inc(u64::MAX - 1);
    p.inc(10);
    assert_eq!(p.position(), u64::MAX);
}
