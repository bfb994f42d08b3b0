//! The clock by which the time spent in a primitive is measured.

use crate::timing::{call0, time_until};
use std::time::{Duration, Instant};
use vstd::prelude::*;

verus! {

/// `std::time::Instant`, a reading of the monotonic clock. It is carried as an
/// opaque value.
#[verifier::external_type_specification]
#[verifier::external_body]
pub struct ExInstant(Instant);

/// `Instant::now` reads the clock. The reading depends on when the call is made,
/// so nothing is claimed of it.
pub assume_specification[ std::time::Instant::now ]() -> (reading: Instant);

/// `Instant::elapsed` gives the time since an earlier reading. It depends on when
/// the call is made, so nothing is claimed of it.
pub assume_specification[ std::time::Instant::elapsed ](reading: &Instant) -> (span: Duration);

/// `Duration::as_nanos` gives the whole nanoseconds in a span. A span is opaque
/// here, so nothing is claimed of its length.
pub assume_specification[ std::time::Duration::as_nanos ](span: &Duration) -> (nanos: u128);

/// Whether the process has a clock to measure with.
#[derive(Clone, Copy, Debug, PartialEq, Eq, Structural)]
pub enum Clock {
    /// The monotonic clock of the standard library.
    Monotonic,
    /// No clock at all, as on targets without the standard library: primitives
    /// still run, and no time is ever charged for them.
    Absent,
}

/// `nanos` is a length of time that the clock gave: what `Duration::as_nanos`
/// returned of what `Instant::elapsed` returned of what `Instant::now` returned.
pub open spec fn read_off_clock(nanos: u128) -> bool {
    exists|reading: Instant, span: Duration|
        {
            &&& #[trigger] call_ensures(Instant::now, (), reading)
            &&& #[trigger] call_ensures(Instant::elapsed, (&reading,), span)
            &&& call_ensures(Duration::as_nanos, (&span,), nanos)
        }
}

/// The low 64 bits of a number of nanoseconds.
pub open spec fn low_word(nanos: u128) -> u64 {
    (nanos % 0x1_0000_0000_0000_0000u128) as u64
}

/// `charge` is an amount of time as it is added to a bucket: a length of time
/// that the clock gave, cut to 64 bits.
pub open spec fn measured(charge: u64) -> bool {
    exists|nanos: u128| #[trigger] read_off_clock(nanos) && charge == low_word(nanos)
}

impl Clock {
    /// `charge` is what the clock can say of a call: a time read off it, or zero
    /// where there is no clock.
    pub open spec fn gives(self, charge: u64) -> bool {
        match self {
            Clock::Monotonic => measured(charge),
            Clock::Absent => charge == 0,
        }
    }
}

/// Cuts a number of nanoseconds to the 64 bits that a bucket has.
pub fn to_charge(nanos: u128) -> (charge: u64)
    ensures
        charge == low_word(nanos),
        charge == nanos as int % 0x1_0000_0000_0000_0000,
        nanos <= u64::MAX ==> charge == nanos,
{
    assert(nanos as u64 == nanos % 0x1_0000_0000_0000_0000u128) by (bit_vector);
    nanos as u64
}

/// Reads `clock` where there is one, to find out later how long something took.
pub fn start(clock: Clock) -> (reading: Option<Instant>)
    ensures
        reading is Some <==> clock is Monotonic,
        reading matches Some(instant) ==> call_ensures(Instant::now, (), instant),
{
    match clock {
        Clock::Monotonic => Some(Instant::now()),
        Clock::Absent => None,
    }
}

/// The time since `reading`, as it is added to a bucket. Where there was no clock to
/// read it is zero.
pub(crate) fn since(reading: Option<Instant>) -> (charge: u64)
    requires
        reading matches Some(instant) ==> call_ensures(Instant::now, (), instant),
    ensures
        reading is Some ==> Clock::Monotonic.gives(charge),
        reading is None ==> Clock::Absent.gives(charge),
        reading matches Some(instant) ==> crate::timing::elapsed_since(instant, charge),
        reading is None ==> charge == 0,
{
    match reading {
        Some(instant) => {
            let span = instant.elapsed();
            let nanos: u128 = span.as_nanos();
            assert(read_off_clock(nanos));
            to_charge(nanos)
        },
        None => 0,
    }
}

/// Runs `f` and returns its result, with the time that it took on `clock`. Where
/// there is no clock that time is zero.
///
/// The clock is read before `f` and again after it, which is what `timed` says. What a
/// reading is rests on when it is made, so of the length of the time the contract says
/// only that the clock gave it.
pub fn measure<R>(clock: Clock, f: impl FnOnce() -> R) -> (out: (R, u64))
    requires
        f.requires(()),
    ensures
        f.ensures((), out.0),
        clock.gives(out.1),
        crate::timing::timed(clock, f, out.0, out.1),
{
    let reading = start(clock);
    let result = call0(reading, f);
    let charge: u64 = time_until(reading, &result);
    assert(crate::timing::bracketed(clock, reading, result, charge));
    (result, charge)
}

} // verus!
