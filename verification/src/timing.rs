//! Timing a call, so that the time spans it.
//!
//! A function runs after its arguments are there. So the reading that a time starts
//! from is an argument of the function that makes the call, and the result of the
//! call is an argument of the function that takes the time. Where a contract says of
//! both that they were called with these arguments, the clock was read before the
//! call began, and the time was taken after it had returned.

use crate::clock::{since, start, Clock};
use std::time::{Duration, Instant};
use vstd::prelude::*;

verus! {

/// Calls `f` with `reading` in hand: whoever gets here has read the clock before.
pub fn call0<R, F: FnOnce() -> R>(
    reading: Option<Instant>,
    f: F,
) -> (result: R)
    requires
        f.requires(()),
    ensures
        f.ensures((), result),
{
    let _ = reading;
    f()
}

/// Calls `f`, which takes one argument, with `reading` in hand.
pub fn call1<A, R, F: FnOnce(A) -> R>(
    reading: Option<Instant>,
    f: F,
    a: A,
) -> (result: R)
    requires
        f.requires((a,)),
    ensures
        f.ensures((a,), result),
{
    let _ = reading;
    f(a)
}

/// Calls `f`, which takes two arguments, with `reading` in hand.
pub fn call2<A, B, R, F: FnOnce(A, B) -> R>(
    reading: Option<Instant>,
    f: F,
    a: A,
    b: B,
) -> (result: R)
    requires
        f.requires((a, b)),
    ensures
        f.ensures((a, b), result),
{
    let _ = reading;
    f(a, b)
}

/// Calls `f`, which takes three arguments, with `reading` in hand.
pub fn call3<A, B, D, R, F: FnOnce(A, B, D) -> R>(
    reading: Option<Instant>,
    f: F,
    a: A,
    b: B,
    d: D,
) -> (result: R)
    requires
        f.requires((a, b, d)),
    ensures
        f.ensures((a, b, d), result),
{
    let _ = reading;
    f(a, b, d)
}

/// Calls `f`, which takes four arguments, with `reading` in hand.
pub fn call4<A, B, D, E, R, F: FnOnce(A, B, D, E) -> R>(
    reading: Option<Instant>,
    f: F,
    a: A,
    b: B,
    d: D,
    e: E,
) -> (result: R)
    requires
        f.requires((a, b, d, e)),
    ensures
        f.ensures((a, b, d, e), result),
{
    let _ = reading;
    f(a, b, d, e)
}

/// Calls `f`, which takes five arguments, with `reading` in hand.
pub fn call5<A, B, D, E, G, R, F: FnOnce(A, B, D, E, G) -> R>(
    reading: Option<Instant>,
    f: F,
    a: A,
    b: B,
    d: D,
    e: E,
    g: G,
) -> (result: R)
    requires
        f.requires((a, b, d, e, g)),
    ensures
        f.ensures((a, b, d, e, g), result),
{
    let _ = reading;
    f(a, b, d, e, g)
}

/// Calls `f`, which takes six arguments, with `reading` in hand.
pub fn call6<A, B, D, E, G, H, R, F: FnOnce(A, B, D, E, G, H) -> R>(
    reading: Option<Instant>,
    f: F,
    a: A,
    b: B,
    d: D,
    e: E,
    g: G,
    h: H,
) -> (result: R)
    requires
        f.requires((a, b, d, e, g, h)),
    ensures
        f.ensures((a, b, d, e, g, h), result),
{
    let _ = reading;
    f(a, b, d, e, g, h)
}

/// Calls `f`, which takes seven arguments, with `reading` in hand.
pub fn call7<A, B, D, E, G, H, I, R, F: FnOnce(A, B, D, E, G, H, I) -> R>(
    reading: Option<Instant>,
    f: F,
    a: A,
    b: B,
    d: D,
    e: E,
    g: G,
    h: H,
    i: I,
) -> (result: R)
    requires
        f.requires((a, b, d, e, g, h, i)),
    ensures
        f.ensures((a, b, d, e, g, h, i), result),
{
    let _ = reading;
    f(a, b, d, e, g, h, i)
}

/// The time from `reading` until now, when `result` is there: whoever gets here has
/// made the call before. Where there was no clock to read it is zero.
pub fn time_until<R>(reading: Option<Instant>, result: &R) -> (charge: u64)
    requires
        reading matches Some(instant) ==> call_ensures(Instant::now, (), instant),
    ensures
        reading matches Some(instant) ==> elapsed_since(instant, charge),
        reading is Some ==> crate::clock::measured(charge),
        reading is None ==> charge == 0,
{
    let _ = result;
    since(reading)
}

/// `charge` is what the clock gave as the nanoseconds since `instant`, modulo the size
/// of a bucket.
pub open spec fn elapsed_since(instant: Instant, charge: u64) -> bool {
    exists|span: Duration, nanos: u128|
        {
            &&& #[trigger] call_ensures(Instant::elapsed, (&instant,), span)
            &&& #[trigger] call_ensures(Duration::as_nanos, (&span,), nanos)
            &&& charge == nanos as int % 0x1_0000_0000_0000_0000
        }
}

/// `reading` was read off `clock`, and `charge` is the time from there, taken when
/// `result` was there.
pub open spec fn bracketed<R>(
    clock: Clock,
    reading: Option<Instant>,
    result: R,
    charge: u64,
) -> bool {
    &&& call_ensures(start, (clock,), reading)
    &&& call_ensures(time_until::<R>, (reading, &result), charge)
}

/// `result` is what `f` returned, and `charge` is the time on `clock` from before the
/// call until after it.
pub open spec fn timed<R, F: FnOnce() -> R>(clock: Clock, f: F, result: R, charge: u64) -> bool {
    exists|reading: Option<Instant>|
        {
            &&& #[trigger] bracketed(clock, reading, result, charge)
            &&& call_ensures(call0::<R, F>, (reading, f), result)
        }
}

/// The clock gives nanoseconds for `instant`, which was read at the moment `read`, as
/// they went by until the moment `looked`.
pub open spec fn keeps_time(instant: Instant, read: int, looked: int) -> bool {
    forall|span: Duration, nanos: u128|
        #[trigger] call_ensures(Instant::elapsed, (&instant,), span) && #[trigger] call_ensures(
            Duration::as_nanos,
            (&span,),
            nanos,
        ) ==> nanos == looked - read
}

/// A charge is a number of nanoseconds: the number that the clock gave, and where that
/// does not fit a bucket, what is left of it modulo the size of the bucket.
pub proof fn law_charge_is_nanoseconds(nanos: u128)
    ensures
        nanos <= u64::MAX ==> crate::clock::low_word(nanos) == nanos,
        (nanos - crate::clock::low_word(nanos)) % 0x1_0000_0000_0000_0000 == 0,
{
}

/// Two times that the clock gave add up in a bucket: the charges for both come to the
/// nanoseconds of both, modulo the size of the bucket.
pub proof fn law_charges_add_up(first: u128, second: u128)
    ensures
        (first + second - (crate::clock::low_word(first) + crate::clock::low_word(second)))
            % 0x1_0000_0000_0000_0000 == 0,
{
}

/// A measured time is, modulo the size of a bucket, what `Duration::as_nanos` returned
/// of what `Instant::elapsed` returned of what `Instant::now` returned.
pub proof fn law_measured_is_nanoseconds(charge: u64)
    requires
        crate::clock::measured(charge),
    ensures
        exists|reading: Instant, span: Duration, nanos: u128|
            {
                &&& #[trigger] call_ensures(Instant::now, (), reading)
                &&& #[trigger] call_ensures(Instant::elapsed, (&reading,), span)
                &&& #[trigger] call_ensures(Duration::as_nanos, (&span,), nanos)
                &&& (nanos - charge) % 0x1_0000_0000_0000_0000 == 0
                &&& nanos <= u64::MAX ==> charge == nanos
            },
{
    let nanos = choose|nanos: u128| #[trigger]
        crate::clock::read_off_clock(nanos) && charge == crate::clock::low_word(nanos);
    let (reading, span) = choose|reading: Instant, span: Duration|
        {
            &&& #[trigger] call_ensures(Instant::now, (), reading)
            &&& #[trigger] call_ensures(Instant::elapsed, (&reading,), span)
            &&& call_ensures(Duration::as_nanos, (&span,), nanos)
        };
    assert(call_ensures(Instant::now, (), reading));
    assert(call_ensures(Duration::as_nanos, (&span,), nanos));
}

/// A charge is taken with the result of the call there, from a reading of that very
/// clock, and there is such a reading just where there is a clock.
pub proof fn law_charge_is_taken_after_the_call<R>(
    clock: Clock,
    reading: Option<Instant>,
    result: R,
    charge: u64,
)
    requires
        bracketed(clock, reading, result, charge),
    ensures
        call_ensures(start, (clock,), reading),
        call_ensures(time_until::<R>, (reading, &result), charge),
        clock is Monotonic <==> reading is Some,
        clock is Absent ==> charge == 0,
        reading matches Some(instant) ==> {
            &&& call_ensures(Instant::now, (), instant)
            &&& exists|span: Duration, nanos: u128|
                {
                    &&& #[trigger] call_ensures(Instant::elapsed, (&instant,), span)
                    &&& #[trigger] call_ensures(Duration::as_nanos, (&span,), nanos)
                    &&& (nanos - charge) % 0x1_0000_0000_0000_0000 == 0
                    &&& nanos <= u64::MAX ==> charge == nanos
                }
        },
{
    if let Some(instant) = reading {
        assert(elapsed_since(instant, charge));
        let (span, nanos) = choose|span: Duration, nanos: u128|
            {
                &&& #[trigger] call_ensures(Instant::elapsed, (&instant,), span)
                &&& #[trigger] call_ensures(Duration::as_nanos, (&span,), nanos)
                &&& charge == nanos as int % 0x1_0000_0000_0000_0000
            };
        assert(call_ensures(Instant::elapsed, (&instant,), span));
        assert(call_ensures(Duration::as_nanos, (&span,), nanos));
    }
}

/// A timed call is made with a reading in hand, and its time is taken from that very
/// reading with its result there.
pub proof fn law_reading_comes_before_the_call<R, F: FnOnce() -> R>(
    clock: Clock,
    f: F,
    result: R,
    charge: u64,
)
    requires
        timed(clock, f, result, charge),
    ensures
        f.ensures((), result),
        exists|reading: Option<Instant>|
            {
                &&& #[trigger] call_ensures(start, (clock,), reading)
                &&& #[trigger] call_ensures(call0::<R, F>, (reading, f), result)
                &&& #[trigger] call_ensures(time_until::<R>, (reading, &result), charge)
            },
{
    let reading = choose|reading: Option<Instant>|
        {
            &&& #[trigger] bracketed(clock, reading, result, charge)
            &&& call_ensures(call0::<R, F>, (reading, f), result)
        };
    assert(call_ensures(start, (clock,), reading));
    assert(call_ensures(call0::<R, F>, (reading, f), result));
}

/// What a call is charged covers it. Let the clock be read at the moment `read`, the
/// call begin at `began` and return at `returned`, and the time be taken at `looked`.
/// Then the charge is no less than what the call took, and no more than what went by
/// from the reading to the look, as long as that fits a bucket.
pub proof fn law_charge_covers_call<R>(
    instant: Instant,
    result: R,
    charge: u64,
    read: int,
    began: int,
    returned: int,
    looked: int,
)
    requires
        bracketed(Clock::Monotonic, Some(instant), result, charge),
        keeps_time(instant, read, looked),
        read <= began <= returned <= looked,
        looked - read <= u64::MAX,
    ensures
        returned - began <= charge <= looked - read,
{
    law_charge_is_taken_after_the_call(Clock::Monotonic, Some(instant), result, charge);
}

} // verus!
