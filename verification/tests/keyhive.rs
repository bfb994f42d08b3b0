use crypto_instrumentation::clock::Clock;
use crypto_instrumentation::keyhive::{
    aead_decrypt, aead_encrypt, charge_pubkey, charge_sym, dh, hash, kdf, keygen, prf, reset, sign,
    snapshot, timed_pubkey, timed_pubkey_within, timed_sym, timed_sym_within, verify,
    PrimitiveCounters, Registers,
};
use std::time::{Duration, Instant};

fn busy_for(span: Duration) {
    let start = Instant::now();
    while start.elapsed() < span {}
}

fn times(n: usize, count: fn(&mut Registers), registers: &mut Registers) {
    for _ in 0..n {
        count(registers);
    }
}

fn counted() -> Registers {
    let mut registers = Registers::new(Clock::Monotonic);
    times(1, hash, &mut registers);
    times(2, kdf, &mut registers);
    times(3, prf, &mut registers);
    times(4, keygen, &mut registers);
    times(5, dh, &mut registers);
    times(6, aead_encrypt, &mut registers);
    times(7, aead_decrypt, &mut registers);
    times(8, sign, &mut registers);
    times(9, verify, &mut registers);
    charge_pubkey(&mut registers, 10);
    charge_sym(&mut registers, 11);
    registers
}

const COUNTED: PrimitiveCounters = PrimitiveCounters {
    hash: 1,
    kdf: 2,
    prf: 3,
    keygen: 4,
    dh: 5,
    aead_encrypt: 6,
    aead_decrypt: 7,
    sign: 8,
    verify: 9,
    pubkey_ns: 10,
    sym_ns: 11,
};

#[test]
fn fresh_registers_show_zero() {
    assert_eq!(snapshot(&Registers::new(Clock::Monotonic)), PrimitiveCounters::default());
    assert_eq!(PrimitiveCounters::default().hash, 0);
    assert_eq!(PrimitiveCounters::default().sym_ns, 0);
}

#[test]
fn each_primitive_has_a_counter_of_its_own() {
    assert_eq!(snapshot(&counted()), COUNTED);
}

#[test]
fn snapshots_do_not_reset() {
    let registers = counted();
    assert_eq!(snapshot(&registers), snapshot(&registers));
    assert_eq!(snapshot(&registers), COUNTED);
}

#[test]
fn reset_clears_every_counter_and_keeps_the_clock() {
    let mut registers = counted();
    reset(&mut registers);
    assert_eq!(snapshot(&registers), PrimitiveCounters::default());
    assert_eq!(registers, Registers::new(Clock::Monotonic));
}

#[test]
fn a_phase_counts_from_its_reset() {
    let mut registers = counted();
    reset(&mut registers);
    sign(&mut registers);
    sign(&mut registers);
    let shown = snapshot(&registers);
    assert_eq!(shown.sign, 2);
    assert_eq!(PrimitiveCounters { sign: 0, ..shown }, PrimitiveCounters::default());
}

#[test]
fn counts_start_again_from_zero() {
    let mut registers = Registers::new(Clock::Monotonic);
    registers.dh = usize::MAX;
    assert_eq!(snapshot(&registers).dh, usize::MAX as u64);
    dh(&mut registers);
    assert_eq!(snapshot(&registers), PrimitiveCounters::default());
}

#[test]
fn charges_start_again_from_zero() {
    let mut registers = Registers::new(Clock::Monotonic);
    charge_sym(&mut registers, u64::MAX);
    charge_sym(&mut registers, 3);
    assert_eq!(snapshot(&registers).sym_ns, 2);
    assert_eq!(snapshot(&registers).pubkey_ns, 0);
}

#[test]
fn the_order_of_events_does_not_matter() {
    let mut one = Registers::new(Clock::Monotonic);
    hash(&mut one);
    charge_sym(&mut one, 5);
    sign(&mut one);
    charge_sym(&mut one, 8);
    let mut other = Registers::new(Clock::Monotonic);
    charge_sym(&mut other, 8);
    sign(&mut other);
    charge_sym(&mut other, 5);
    hash(&mut other);
    assert_eq!(one, other);
    assert_eq!(snapshot(&one).sym_ns, 13);
}

#[test]
fn counts_do_not_depend_on_time() {
    let mut fast = Registers::new(Clock::Monotonic);
    hash(&mut fast);
    charge_sym(&mut fast, 1);
    let mut slow = Registers::new(Clock::Monotonic);
    hash(&mut slow);
    charge_sym(&mut slow, 1_000_000);
    assert_eq!(snapshot(&fast).hash, snapshot(&slow).hash);
    assert_ne!(snapshot(&fast).sym_ns, snapshot(&slow).sym_ns);
}

#[test]
fn public_key_time_goes_to_its_bucket() {
    let mut registers = Registers::new(Clock::Monotonic);
    let result = timed_pubkey(&mut registers, || {
        busy_for(Duration::from_millis(2));
        17
    });
    assert_eq!(result, 17);
    let shown = snapshot(&registers);
    assert!(shown.pubkey_ns >= 2_000_000);
    assert_eq!(PrimitiveCounters { pubkey_ns: 0, ..shown }, PrimitiveCounters::default());
}

#[test]
fn symmetric_time_goes_to_its_bucket() {
    let mut registers = Registers::new(Clock::Monotonic);
    let result = timed_sym(&mut registers, || {
        busy_for(Duration::from_millis(2));
        "tag".to_string()
    });
    assert_eq!(result, "tag");
    let shown = snapshot(&registers);
    assert!(shown.sym_ns >= 2_000_000);
    assert_eq!(PrimitiveCounters { sym_ns: 0, ..shown }, PrimitiveCounters::default());
}

#[test]
fn times_add_up() {
    let mut registers = Registers::new(Clock::Monotonic);
    timed_sym(&mut registers, || busy_for(Duration::from_millis(1)));
    let first = snapshot(&registers).sym_ns;
    timed_sym(&mut registers, || busy_for(Duration::from_millis(1)));
    assert!(snapshot(&registers).sym_ns >= first + 1_000_000);
}

#[test]
fn without_a_clock_primitives_run_and_buckets_stay_at_zero() {
    let mut registers = Registers::new(Clock::Absent);
    let a = timed_pubkey(&mut registers, || {
        busy_for(Duration::from_millis(1));
        1
    });
    let b = timed_sym(&mut registers, || 2);
    charge_pubkey(&mut registers, 99);
    charge_sym(&mut registers, 99);
    verify(&mut registers);
    assert_eq!((a, b), (1, 2));
    let shown = snapshot(&registers);
    assert_eq!(shown.pubkey_ns, 0);
    assert_eq!(shown.sym_ns, 0);
    assert_eq!(shown.verify, 1);
}

#[test]
fn a_timed_public_key_call_may_count() {
    for clock in [Clock::Monotonic, Clock::Absent] {
        let mut registers = Registers::new(clock);
        let result = timed_pubkey_within(&mut registers, |inside: &mut Registers| {
            dh(inside);
            busy_for(Duration::from_millis(1));
            7u32
        });
        assert_eq!(result, 7);
        let shown = snapshot(&registers);
        assert_eq!(
            PrimitiveCounters { dh: 0, pubkey_ns: 0, ..shown },
            PrimitiveCounters::default()
        );
        assert_eq!(shown.dh, 1);
        assert_eq!(shown.pubkey_ns >= 1_000_000, clock == Clock::Monotonic);
        assert_eq!(shown.pubkey_ns == 0, clock == Clock::Absent);
    }
}

#[test]
fn a_timed_symmetric_call_may_count() {
    for clock in [Clock::Monotonic, Clock::Absent] {
        let mut registers = Registers::new(clock);
        let result = timed_sym_within(&mut registers, |inside: &mut Registers| {
            kdf(inside);
            kdf(inside);
            busy_for(Duration::from_millis(1));
            9u8
        });
        assert_eq!(result, 9);
        let shown = snapshot(&registers);
        assert_eq!(PrimitiveCounters { kdf: 0, sym_ns: 0, ..shown }, PrimitiveCounters::default());
        assert_eq!(shown.kdf, 2);
        assert_eq!(shown.sym_ns >= 1_000_000, clock == Clock::Monotonic);
        assert_eq!(shown.sym_ns == 0, clock == Clock::Absent);
    }
}

#[test]
fn a_run_counts_and_times_since_its_reset() {
    let mut registers = Registers::new(Clock::Monotonic);
    timed_pubkey(&mut registers, || busy_for(Duration::from_millis(1)));
    hash(&mut registers);
    reset(&mut registers);
    hash(&mut registers);
    timed_sym(&mut registers, || busy_for(Duration::from_millis(1)));
    timed_sym_within(&mut registers, |inside: &mut Registers| {
        hash(inside);
        busy_for(Duration::from_millis(1));
    });
    let shown = snapshot(&registers);
    assert_eq!(shown.hash, 2);
    assert_eq!(shown.pubkey_ns, 0);
    assert!(shown.sym_ns >= 2_000_000);
}

#[test]
fn executions_of_one_primitive_add_up() {
    let mut registers = counted();
    times(100, kdf, &mut registers);
    times(23, kdf, &mut registers);
    assert_eq!(snapshot(&registers), PrimitiveCounters { kdf: 125, ..COUNTED });
}
