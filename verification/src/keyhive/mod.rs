//! Lightweight crypto primitive counters for evaluation harnesses.
//!
//! One set of [`Registers`] serves the whole process. Each primitive has a
//! function here that counts one execution of it; the time spent inside
//! primitives is charged to one of two buckets.

pub mod laws;

use crate::cell::{fetch_add_u64, fetch_add_usize};
use crate::clock::{measure, start, Clock};
use crate::timing::{call1, time_until};
use std::time::Instant;
use vstd::prelude::*;

verus! {

/// Protocol-visible crypto primitive counters used by the evaluation harness.
#[derive(Clone, Copy, Debug, PartialEq, Eq, Structural)]
pub struct PrimitiveCounters {
    pub hash: u64,
    pub kdf: u64,
    pub prf: u64,
    pub keygen: u64,
    pub dh: u64,
    pub aead_encrypt: u64,
    pub aead_decrypt: u64,
    pub sign: u64,
    pub verify: u64,
    /// Nanoseconds spent inside public-key primitives (key generation, DH, sign,
    /// verify). Stays zero where there is no clock.
    pub pubkey_ns: u64,
    /// Nanoseconds spent inside symmetric primitives (hash, KDF, PRF, AEAD).
    /// Stays zero where there is no clock.
    pub sym_ns: u64,
}

/// The primitives that are counted.
#[derive(Clone, Copy, Debug, PartialEq, Eq, Structural)]
pub enum Primitive {
    Hash,
    Kdf,
    Prf,
    Keygen,
    Dh,
    AeadEncrypt,
    AeadDecrypt,
    Sign,
    Verify,
}

/// The buckets that time is charged to.
#[derive(Clone, Copy, Debug, PartialEq, Eq, Structural)]
pub enum Bucket {
    PublicKey,
    Symmetric,
}

/// What can happen to the registers between one reset and the next.
#[derive(Clone, Copy, Debug, PartialEq, Eq, Structural)]
pub enum Event {
    /// A primitive was executed.
    Count(Primitive),
    /// A primitive of this kind took this many nanoseconds.
    Charge(Bucket, u64),
}

/// The live counters of the process: a word-sized cell for each primitive, a
/// 64-bit cell for each bucket, and the clock that the buckets are fed from.
#[derive(Clone, Copy, Debug, PartialEq, Eq, Structural)]
pub struct Registers {
    pub hash: usize,
    pub kdf: usize,
    pub prf: usize,
    pub keygen: usize,
    pub dh: usize,
    pub aead_encrypt: usize,
    pub aead_decrypt: usize,
    pub sign: usize,
    pub verify: usize,
    pub pubkey_ns: u64,
    pub sym_ns: u64,
    pub clock: Clock,
}

impl PrimitiveCounters {
    /// Every counter at zero.
    pub open spec fn zero() -> PrimitiveCounters {
        PrimitiveCounters {
            hash: 0,
            kdf: 0,
            prf: 0,
            keygen: 0,
            dh: 0,
            aead_encrypt: 0,
            aead_decrypt: 0,
            sign: 0,
            verify: 0,
            pubkey_ns: 0,
            sym_ns: 0,
        }
    }

    /// The counter of `primitive`.
    pub open spec fn count(self, primitive: Primitive) -> u64 {
        match primitive {
            Primitive::Hash => self.hash,
            Primitive::Kdf => self.kdf,
            Primitive::Prf => self.prf,
            Primitive::Keygen => self.keygen,
            Primitive::Dh => self.dh,
            Primitive::AeadEncrypt => self.aead_encrypt,
            Primitive::AeadDecrypt => self.aead_decrypt,
            Primitive::Sign => self.sign,
            Primitive::Verify => self.verify,
        }
    }

    /// The time in `bucket`.
    pub open spec fn time(self, bucket: Bucket) -> u64 {
        match bucket {
            Bucket::PublicKey => self.pubkey_ns,
            Bucket::Symmetric => self.sym_ns,
        }
    }
}

impl Default for PrimitiveCounters {
    /// Every counter at zero.
    fn default() -> (counters: Self)
        ensures
            counters == PrimitiveCounters::zero(),
    {
        PrimitiveCounters {
            hash: 0,
            kdf: 0,
            prf: 0,
            keygen: 0,
            dh: 0,
            aead_encrypt: 0,
            aead_decrypt: 0,
            sign: 0,
            verify: 0,
            pubkey_ns: 0,
            sym_ns: 0,
        }
    }
}

impl Registers {
    /// The registers with every cell at zero and the same clock.
    pub open spec fn cleared(self) -> Registers {
        Registers {
            hash: 0,
            kdf: 0,
            prf: 0,
            keygen: 0,
            dh: 0,
            aead_encrypt: 0,
            aead_decrypt: 0,
            sign: 0,
            verify: 0,
            pubkey_ns: 0,
            sym_ns: 0,
            clock: self.clock,
        }
    }

    /// What a snapshot of the registers shows: each cell in the field of its name.
    pub open spec fn reading(self) -> PrimitiveCounters {
        PrimitiveCounters {
            hash: self.hash as u64,
            kdf: self.kdf as u64,
            prf: self.prf as u64,
            keygen: self.keygen as u64,
            dh: self.dh as u64,
            aead_encrypt: self.aead_encrypt as u64,
            aead_decrypt: self.aead_decrypt as u64,
            sign: self.sign as u64,
            verify: self.verify as u64,
            pubkey_ns: self.pubkey_ns,
            sym_ns: self.sym_ns,
        }
    }

    /// The registers once `primitive` was counted: its cell has moved on by one,
    /// and nothing else has changed.
    pub open spec fn counted(self, primitive: Primitive) -> Registers {
        match primitive {
            Primitive::Hash => Registers { hash: self.hash.wrapping_add(1), ..self },
            Primitive::Kdf => Registers { kdf: self.kdf.wrapping_add(1), ..self },
            Primitive::Prf => Registers { prf: self.prf.wrapping_add(1), ..self },
            Primitive::Keygen => Registers { keygen: self.keygen.wrapping_add(1), ..self },
            Primitive::Dh => Registers { dh: self.dh.wrapping_add(1), ..self },
            Primitive::AeadEncrypt => Registers {
                aead_encrypt: self.aead_encrypt.wrapping_add(1),
                ..self
            },
            Primitive::AeadDecrypt => Registers {
                aead_decrypt: self.aead_decrypt.wrapping_add(1),
                ..self
            },
            Primitive::Sign => Registers { sign: self.sign.wrapping_add(1), ..self },
            Primitive::Verify => Registers { verify: self.verify.wrapping_add(1), ..self },
        }
    }

    /// The registers once `nanos` were charged to `bucket`. Without a clock there
    /// is nothing to charge, and the registers stay as they are.
    pub open spec fn charged(self, bucket: Bucket, nanos: u64) -> Registers {
        match (self.clock, bucket) {
            (Clock::Absent, _) => self,
            (Clock::Monotonic, Bucket::PublicKey) => Registers {
                pubkey_ns: self.pubkey_ns.wrapping_add(nanos),
                ..self
            },
            (Clock::Monotonic, Bucket::Symmetric) => Registers {
                sym_ns: self.sym_ns.wrapping_add(nanos),
                ..self
            },
        }
    }

    /// The registers after `event`.
    pub open spec fn after(self, event: Event) -> Registers {
        match event {
            Event::Count(primitive) => self.counted(primitive),
            Event::Charge(bucket, nanos) => self.charged(bucket, nanos),
        }
    }

    /// The registers after `events`, one after the other.
    pub open spec fn replayed(self, events: Seq<Event>) -> Registers {
        events.fold_left(self, |registers: Registers, event: Event| registers.after(event))
    }

    /// Registers at zero, fed from `clock`.
    pub fn new(clock: Clock) -> (registers: Registers)
        ensures
            registers.reading() == PrimitiveCounters::zero(),
            registers.clock == clock,
            registers == registers.cleared(),
    {
        Registers {
            hash: 0,
            kdf: 0,
            prf: 0,
            keygen: 0,
            dh: 0,
            aead_encrypt: 0,
            aead_decrypt: 0,
            sign: 0,
            verify: 0,
            pubkey_ns: 0,
            sym_ns: 0,
            clock,
        }
    }
}

/// Reset all counters for the current measurement phase.
pub fn reset(registers: &mut Registers)
    ensures
        *final(registers) == old(registers).cleared(),
{
    registers.hash = 0;
    registers.kdf = 0;
    registers.prf = 0;
    registers.keygen = 0;
    registers.dh = 0;
    registers.aead_encrypt = 0;
    registers.aead_decrypt = 0;
    registers.sign = 0;
    registers.verify = 0;
    registers.pubkey_ns = 0;
    registers.sym_ns = 0;
}

/// Snapshot all counters without resetting them.
pub fn snapshot(registers: &Registers) -> (counters: PrimitiveCounters)
    ensures
        counters == registers.reading(),
{
    PrimitiveCounters {
        hash: registers.hash as u64,
        kdf: registers.kdf as u64,
        prf: registers.prf as u64,
        keygen: registers.keygen as u64,
        dh: registers.dh as u64,
        aead_encrypt: registers.aead_encrypt as u64,
        aead_decrypt: registers.aead_decrypt as u64,
        sign: registers.sign as u64,
        verify: registers.verify as u64,
        pubkey_ns: registers.pubkey_ns,
        sym_ns: registers.sym_ns,
    }
}

/// Adds `nanos` to the public-key bucket, where there is a clock.
pub fn charge_pubkey(registers: &mut Registers, nanos: u64)
    ensures
        *final(registers) == old(registers).after(Event::Charge(Bucket::PublicKey, nanos)),
{
    if registers.clock == Clock::Monotonic {
        let _ = fetch_add_u64(&mut registers.pubkey_ns, nanos);
    }
}

/// Adds `nanos` to the symmetric bucket, where there is a clock.
pub fn charge_sym(registers: &mut Registers, nanos: u64)
    ensures
        *final(registers) == old(registers).after(Event::Charge(Bucket::Symmetric, nanos)),
{
    if registers.clock == Clock::Monotonic {
        let _ = fetch_add_u64(&mut registers.sym_ns, nanos);
    }
}

/// Run `f`, adding its duration to the public-key bucket, and return its result.
/// Wrap only the asymmetric primitive itself, not surrounding symmetric work, so
/// that the buckets stay non-overlapping. Without a clock `f` is run and nothing
/// is charged.
///
/// The contract says that the clock was read before `f` and the time taken after it.
/// What the clock gives is up to the clock.
pub fn timed_pubkey<R>(registers: &mut Registers, f: impl FnOnce() -> R) -> (result: R)
    requires
        f.requires(()),
    ensures
        f.ensures((), result),
        exists|nanos: u64|
            {
                &&& #[trigger] old(registers).clock.gives(nanos)
                &&& crate::timing::timed(old(registers).clock, f, result, nanos)
                &&& *final(registers) == old(registers).charged(Bucket::PublicKey, nanos)
            },
        old(registers).clock is Absent ==> *final(registers) == *old(registers),
{
    let (result, nanos) = measure(registers.clock, f);
    charge_pubkey(registers, nanos);
    result
}

/// As [`timed_pubkey`] but for symmetric primitives (hash, KDF, PRF, AEAD).
pub fn timed_sym<R>(registers: &mut Registers, f: impl FnOnce() -> R) -> (result: R)
    requires
        f.requires(()),
    ensures
        f.ensures((), result),
        exists|nanos: u64|
            {
                &&& #[trigger] old(registers).clock.gives(nanos)
                &&& crate::timing::timed(old(registers).clock, f, result, nanos)
                &&& *final(registers) == old(registers).charged(Bucket::Symmetric, nanos)
            },
        old(registers).clock is Absent ==> *final(registers) == *old(registers),
{
    let (result, nanos) = measure(registers.clock, f);
    charge_sym(registers, nanos);
    result
}

/// As [`timed_pubkey`], for an `f` that works on the registers itself, such as one
/// that counts the primitive that it executes. What `f` does to the registers stays
/// done, and the charge comes on top of it.
pub fn timed_pubkey_within<R, F: FnOnce(&mut Registers) -> R>(
    registers: &mut Registers,
    f: F,
) -> (result: R)
    requires
        forall|arg: &mut Registers|
            *arg == *old(registers) ==> #[trigger] call_requires(f, (arg,)),
    ensures
        exists|arg: &mut Registers, nanos: u64|
            {
                &&& *arg == *old(registers)
                &&& #[trigger] call_ensures(f, (arg,), result)
                &&& #[trigger] old(registers).clock.gives(nanos)
                &&& *final(registers) == final(arg).charged(Bucket::PublicKey, nanos)
            },
        exists|arg: &mut Registers, nanos: u64, reading: Option<Instant>|
            {
                &&& *arg == *old(registers)
                &&& #[trigger] call_ensures(
                    call1::<&mut Registers, R, F>,
                    (reading, f, arg),
                    result,
                )
                &&& #[trigger] crate::timing::bracketed(
                    old(registers).clock,
                    reading,
                    result,
                    nanos,
                )
                &&& *final(registers) == final(arg).charged(Bucket::PublicKey, nanos)
            },
        old(registers).clock is Absent ==> exists|arg: &mut Registers|
            {
                &&& *arg == *old(registers)
                &&& #[trigger] call_ensures(f, (arg,), result)
                &&& *final(registers) == *final(arg)
            },
{
    let clock = registers.clock;
    let reading = start(clock);
    let result = call1(reading, f, &mut *registers);
    let nanos: u64 = time_until(reading, &result);
    assert(crate::timing::bracketed(clock, reading, result, nanos));
    assert(clock.gives(nanos));
    charge_pubkey(registers, nanos);
    result
}

/// As [`timed_pubkey_within`] but for symmetric primitives.
pub fn timed_sym_within<R, F: FnOnce(&mut Registers) -> R>(
    registers: &mut Registers,
    f: F,
) -> (result: R)
    requires
        forall|arg: &mut Registers|
            *arg == *old(registers) ==> #[trigger] call_requires(f, (arg,)),
    ensures
        exists|arg: &mut Registers, nanos: u64|
            {
                &&& *arg == *old(registers)
                &&& #[trigger] call_ensures(f, (arg,), result)
                &&& #[trigger] old(registers).clock.gives(nanos)
                &&& *final(registers) == final(arg).charged(Bucket::Symmetric, nanos)
            },
        exists|arg: &mut Registers, nanos: u64, reading: Option<Instant>|
            {
                &&& *arg == *old(registers)
                &&& #[trigger] call_ensures(
                    call1::<&mut Registers, R, F>,
                    (reading, f, arg),
                    result,
                )
                &&& #[trigger] crate::timing::bracketed(
                    old(registers).clock,
                    reading,
                    result,
                    nanos,
                )
                &&& *final(registers) == final(arg).charged(Bucket::Symmetric, nanos)
            },
        old(registers).clock is Absent ==> exists|arg: &mut Registers|
            {
                &&& *arg == *old(registers)
                &&& #[trigger] call_ensures(f, (arg,), result)
                &&& *final(registers) == *final(arg)
            },
{
    let clock = registers.clock;
    let reading = start(clock);
    let result = call1(reading, f, &mut *registers);
    let nanos: u64 = time_until(reading, &result);
    assert(crate::timing::bracketed(clock, reading, result, nanos));
    assert(clock.gives(nanos));
    charge_sym(registers, nanos);
    result
}

/// Counts one hash.
pub fn hash(registers: &mut Registers)
    ensures
        *final(registers) == old(registers).after(Event::Count(Primitive::Hash)),
{
    let _ = fetch_add_usize(&mut registers.hash, 1);
}

/// Counts one key derivation.
pub fn kdf(registers: &mut Registers)
    ensures
        *final(registers) == old(registers).after(Event::Count(Primitive::Kdf)),
{
    let _ = fetch_add_usize(&mut registers.kdf, 1);
}

/// Counts one evaluation of a pseudorandom function.
pub fn prf(registers: &mut Registers)
    ensures
        *final(registers) == old(registers).after(Event::Count(Primitive::Prf)),
{
    let _ = fetch_add_usize(&mut registers.prf, 1);
}

/// Counts one key generation.
pub fn keygen(registers: &mut Registers)
    ensures
        *final(registers) == old(registers).after(Event::Count(Primitive::Keygen)),
{
    let _ = fetch_add_usize(&mut registers.keygen, 1);
}

/// Counts one Diffie-Hellman agreement.
pub fn dh(registers: &mut Registers)
    ensures
        *final(registers) == old(registers).after(Event::Count(Primitive::Dh)),
{
    let _ = fetch_add_usize(&mut registers.dh, 1);
}

/// Counts one authenticated encryption.
pub fn aead_encrypt(registers: &mut Registers)
    ensures
        *final(registers) == old(registers).after(Event::Count(Primitive::AeadEncrypt)),
{
    let _ = fetch_add_usize(&mut registers.aead_encrypt, 1);
}

/// Counts one authenticated decryption.
pub fn aead_decrypt(registers: &mut Registers)
    ensures
        *final(registers) == old(registers).after(Event::Count(Primitive::AeadDecrypt)),
{
    let _ = fetch_add_usize(&mut registers.aead_decrypt, 1);
}

/// Counts one signature.
pub fn sign(registers: &mut Registers)
    ensures
        *final(registers) == old(registers).after(Event::Count(Primitive::Sign)),
{
    let _ = fetch_add_usize(&mut registers.sign, 1);
}

/// Counts one signature verification.
pub fn verify(registers: &mut Registers)
    ensures
        *final(registers) == old(registers).after(Event::Count(Primitive::Verify)),
{
    let _ = fetch_add_usize(&mut registers.verify, 1);
}

} // verus!
