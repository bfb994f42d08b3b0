use crypto_instrumentation::cell::{fetch_add_u64, fetch_add_usize};
use crypto_instrumentation::clock::{measure, to_charge, Clock};
use std::time::{Duration, Instant};

fn busy_for(span: Duration) {
    let start = Instant::now();
    while start.elapsed() < span {}
}

#[test]
fn cells_add_and_give_back_what_they_held() {
    let mut wide: u64 = 40;
    assert_eq!(fetch_add_u64(&mut wide, 2), 40);
    assert_eq!(wide, 42);
    let mut word: usize = 7;
    assert_eq!(fetch_add_usize(&mut word, 5), 7);
    assert_eq!(word, 12);
}

#[test]
fn cells_wrap_around() {
    let mut wide: u64 = u64::MAX - 1;
    assert_eq!(fetch_add_u64(&mut wide, 5), u64::MAX - 1);
    assert_eq!(wide, 3);
    let mut word: usize = usize::MAX;
    assert_eq!(fetch_add_usize(&mut word, 1), usize::MAX);
    assert_eq!(word, 0);
}

#[test]
fn charges_keep_the_low_word() {
    assert_eq!(to_charge(0), 0);
    assert_eq!(to_charge(1_234_567), 1_234_567);
    assert_eq!(to_charge(u64::MAX as u128), u64::MAX);
    assert_eq!(to_charge((1u128 << 64) + 5), 5);
    assert_eq!(to_charge(u128::MAX), u64::MAX);
}

#[test]
fn measuring_returns_the_result_and_the_time() {
    let outer = Instant::now();
    let (result, nanos) = measure(Clock::Monotonic, || {
        busy_for(Duration::from_millis(3));
        "done"
    });
    let bound = outer.elapsed().as_nanos() as u64;
    assert_eq!(result, "done");
    assert!(nanos >= 3_000_000);
    assert!(nanos <= bound);
}

#[test]
fn without_a_clock_no_time_passes() {
    let mut runs = 0;
    let (result, nanos) = measure(Clock::Absent, || {
        busy_for(Duration::from_millis(1));
        runs += 1;
        9
    });
    assert_eq!(result, 9);
    assert_eq!(nanos, 0);
    assert_eq!(runs, 1);
}
