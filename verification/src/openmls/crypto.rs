//! The counting wrapper around a crypto provider.

use crate::cell::fetch_add_u64;
use crate::clock::{measure, start, Clock};
use crate::openmls::counters::{
    lemma_after_value, lemma_same_cells, Cell, CounterInner, Event, Primitive,
};
use crate::openmls::table::{CounterHandle, CounterTable};
use crate::timing::{call2, call3, call4, call5, call6, call7, time_until};
use openmls_traits::types::{
    AeadType, Ciphersuite, CryptoError, ExporterSecret, HashType, HpkeCiphertext, HpkeConfig,
    HpkeKeyPair, KemOutput, SignatureScheme,
};
use std::time::Instant;
use tls_codec::SecretVLBytes;
use vstd::prelude::*;

verus! {

/// Wrapper around an OpenMLS crypto provider that records method-level counters.
///
/// Each method takes the provider's method of the same name as `call`, calls it
/// once with the wrapped provider and the arguments as they came, and returns
/// what it returned. That `call` is the method of that name is up to the caller.
///
/// A primitive is timed as in [`InstrumentedCrypto::timed`]: the clock is read before
/// the call, the time is taken with its result there, and that time is what is charged.
#[derive(Debug)]
pub struct InstrumentedCrypto<C> {
    inner: C,
    counters: CounterHandle,
}

/// From `before` to `after`, one call of `primitive` was recorded in the counters of
/// `handle`: it was counted, and `nanos` were charged to its bucket. All other counters
/// are as they were.
pub open spec fn recorded_as(
    before: CounterTable,
    after: CounterTable,
    handle: CounterHandle,
    primitive: Primitive,
    nanos: u64,
) -> bool {
    after@ == before.with(
        handle,
        before.at(handle).after(Event::Count(primitive)).after(
            Event::Charge(primitive.bucket(), nanos),
        ),
    )
}

/// From `before` to `after`, one call of `primitive` was recorded in the counters
/// of `handle`: it was counted, and a time read off the clock was charged to its
/// bucket. All other counters are as they were.
pub open spec fn recorded(
    before: CounterTable,
    after: CounterTable,
    handle: CounterHandle,
    primitive: Primitive,
) -> bool {
    exists|nanos: u64|
        {
            &&& #[trigger] crate::clock::measured(nanos)
            &&& recorded_as(before, after, handle, primitive, nanos)
        }
}

/// A call is recorded where its counter moved on by one, its bucket by `nanos`, and no
/// other cell changed.
#[verifier::spinoff_prover]
proof fn lemma_recorded(
    before: CounterTable,
    after: CounterTable,
    handle: CounterHandle,
    primitive: Primitive,
    nanos: u64,
)
    requires
        before.holds(handle),
        after@ =~= before.with(handle, after.at(handle)),
        after.at(handle).value(Cell::Calls(primitive)) == before.at(handle).value(
            Cell::Calls(primitive),
        ).wrapping_add(1),
        after.at(handle).value(Cell::Time(primitive.bucket())) == before.at(handle).value(
            Cell::Time(primitive.bucket()),
        ).wrapping_add(nanos),
        forall|cell: Cell|
            cell != Cell::Calls(primitive) && cell != Cell::Time(primitive.bucket())
                ==> #[trigger] after.at(handle).value(cell) == before.at(handle).value(cell),
    ensures
        recorded_as(before, after, handle, primitive, nanos),
{
    let start = before.at(handle);
    let end = after.at(handle);
    let expected = start.after(Event::Count(primitive)).after(
        Event::Charge(primitive.bucket(), nanos),
    );
    assert forall|cell: Cell| end.value(cell) == #[trigger] expected.value(cell) by {
        lemma_after_value(start, Event::Count(primitive), cell);
        lemma_after_value(
            start.after(Event::Count(primitive)),
            Event::Charge(primitive.bucket(), nanos),
            cell,
        );
    }
    lemma_same_cells(end, expected);
}

/// A request for random bytes is recorded where the number of requests moved on by
/// one, the number of bytes by `bytes`, and no other cell changed.
#[verifier::spinoff_prover]
proof fn lemma_random(start: CounterInner, end: CounterInner, bytes: u64)
    requires
        end == (CounterInner {
            random_calls: start.random_calls.wrapping_add(1),
            random_bytes: start.random_bytes.wrapping_add(bytes),
            ..start
        }),
    ensures
        end == start.after(Event::Random(bytes)),
{
}

impl<C> InstrumentedCrypto<C> {
    /// The wrapped provider.
    pub closed spec fn provider(self) -> C {
        self.inner
    }

    /// The handle of the counters that calls are recorded in.
    pub closed spec fn handle(self) -> CounterHandle {
        self.counters
    }

    /// Wraps `inner`, with counters of its own that start at zero.
    pub fn new(inner: C, table: &mut CounterTable) -> (crypto: Self)
        ensures
            crypto.provider() == inner,
            crypto.handle().index() == old(table)@.len(),
            final(table)@ == old(table)@.push(CounterInner::zero()),
    {
        InstrumentedCrypto { inner, counters: CounterHandle::default(table) }
    }

    /// A wrapper around the default provider, with counters of its own that start
    /// at zero.
    pub fn default(table: &mut CounterTable) -> (crypto: Self) where C: Default
        ensures
            call_ensures(C::default, (), crypto.provider()),
            crypto.handle().index() == old(table)@.len(),
            final(table)@ == old(table)@.push(CounterInner::zero()),
    {
        Self::new(C::default(), table)
    }

    /// The handle of the counters that calls are recorded in.
    pub fn counter_handle(&self) -> (handle: CounterHandle)
        ensures
            handle == self.handle(),
    {
        self.counters.clone()
    }

    /// The wrapped provider.
    pub fn inner(&self) -> (inner: &C)
        ensures
            *inner == self.provider(),
    {
        &self.inner
    }

    /// Adds one to a counter.
    pub fn increment(counter: &mut u64)
        ensures
            *final(counter) == old(counter).wrapping_add(1),
    {
        let _ = fetch_add_u64(counter, 1);
    }

    /// Run `f`, adding its duration to `bucket`. The inner provider's
    /// sub-operations do not re-enter this wrapper, so each counted call is a
    /// non-overlapping leaf and the buckets never double-count.
    ///
    /// The contract says that the clock was read before `f` and the time taken after
    /// it. What the clock gives is up to the clock.
    pub fn timed<R>(bucket: &mut u64, f: impl FnOnce() -> R) -> (result: R)
        requires
            f.requires(()),
        ensures
            f.ensures((), result),
            exists|nanos: u64|
                {
                    &&& #[trigger] crate::clock::measured(nanos)
                    &&& crate::timing::timed(Clock::Monotonic, f, result, nanos)
                    &&& *final(bucket) == old(bucket).wrapping_add(nanos)
                },
    {
        let (result, nanos) = measure(Clock::Monotonic, f);
        let _ = fetch_add_u64(bucket, nanos);
        result
    }

    /// Whether the wrapped provider supports `ciphersuite`. Nothing is recorded.
    pub fn supports<F>(
        &self,
        ciphersuite: Ciphersuite,
        call: F,
    ) -> (result: Result<(), CryptoError>)
    where F: FnOnce(&C, Ciphersuite) -> Result<(), CryptoError>
        requires
            call.requires((&self.provider(), ciphersuite)),
        ensures
            call.ensures((&self.provider(), ciphersuite), result),
    {
        call(&self.inner, ciphersuite)
    }

    /// The ciphersuites that the wrapped provider supports. Nothing is recorded.
    pub fn supported_ciphersuites<F>(&self, call: F) -> (result: Vec<Ciphersuite>)
    where F: FnOnce(&C) -> Vec<Ciphersuite>
        requires
            call.requires((&self.provider(),)),
        ensures
            call.ensures((&self.provider(),), result),
    {
        call(&self.inner)
    }

    /// HKDF extract. Recorded as [`Primitive::HkdfExtract`].
    pub fn hkdf_extract<F>(
        &self,
        table: &mut CounterTable,
        hash_type: HashType,
        salt: &[u8],
        ikm: &[u8],
        call: F,
    ) -> (result: Result<SecretVLBytes, CryptoError>)
    where F: FnOnce(&C, HashType, &[u8], &[u8]) -> Result<SecretVLBytes, CryptoError>
        requires
            old(table).holds(self.handle()),
            call.requires((&self.provider(), hash_type, salt, ikm)),
        ensures
            call.ensures((&self.provider(), hash_type, salt, ikm), result),
            recorded(*old(table), *final(table), self.handle(), Primitive::HkdfExtract),
            exists|reading: Option<Instant>, nanos: u64|
                {
                    &&& #[trigger] crate::timing::bracketed(
                        Clock::Monotonic,
                        reading,
                        result,
                        nanos,
                    )
                    &&& call_ensures(
                        call4::<
                            &C,
                            HashType,
                            &[u8],
                            &[u8],
                            Result<SecretVLBytes, CryptoError>,
                            F,
                        >,
                        (reading, call, &self.provider(), hash_type, salt, ikm),
                        result,
                    )
                    &&& recorded_as(
                        *old(table),
                        *final(table),
                        self.handle(),
                        Primitive::HkdfExtract,
                        nanos,
                    )
                },
    {
        Self::increment(&mut table.inner(&self.counters).hkdf_extract);
        let bucket = &mut table.inner(&self.counters).sym_ns;
        let reading = start(Clock::Monotonic);
        let result = call4(reading, call, &self.inner, hash_type, salt, ikm);
        let nanos: u64 = time_until(reading, &result);
        let _ = fetch_add_u64(bucket, nanos);
        proof {
            lemma_recorded(*old(table), *table, self.counters, Primitive::HkdfExtract, nanos);
            assert(crate::timing::bracketed(Clock::Monotonic, reading, result, nanos));
        }
        result
    }

    /// HMAC of `message` under `key`. Recorded as [`Primitive::Hmac`].
    pub fn hmac<F>(
        &self,
        table: &mut CounterTable,
        hash_type: HashType,
        key: &[u8],
        message: &[u8],
        call: F,
    ) -> (result: Result<SecretVLBytes, CryptoError>)
    where F: FnOnce(&C, HashType, &[u8], &[u8]) -> Result<SecretVLBytes, CryptoError>
        requires
            old(table).holds(self.handle()),
            call.requires((&self.provider(), hash_type, key, message)),
        ensures
            call.ensures((&self.provider(), hash_type, key, message), result),
            recorded(*old(table), *final(table), self.handle(), Primitive::Hmac),
            exists|reading: Option<Instant>, nanos: u64|
                {
                    &&& #[trigger] crate::timing::bracketed(
                        Clock::Monotonic,
                        reading,
                        result,
                        nanos,
                    )
                    &&& call_ensures(
                        call4::<
                            &C,
                            HashType,
                            &[u8],
                            &[u8],
                            Result<SecretVLBytes, CryptoError>,
                            F,
                        >,
                        (reading, call, &self.provider(), hash_type, key, message),
                        result,
                    )
                    &&& recorded_as(
                        *old(table),
                        *final(table),
                        self.handle(),
                        Primitive::Hmac,
                        nanos,
                    )
                },
    {
        Self::increment(&mut table.inner(&self.counters).hmac);
        let bucket = &mut table.inner(&self.counters).sym_ns;
        let reading = start(Clock::Monotonic);
        let result = call4(reading, call, &self.inner, hash_type, key, message);
        let nanos: u64 = time_until(reading, &result);
        let _ = fetch_add_u64(bucket, nanos);
        proof {
            lemma_recorded(*old(table), *table, self.counters, Primitive::Hmac, nanos);
            assert(crate::timing::bracketed(Clock::Monotonic, reading, result, nanos));
        }
        result
    }

    /// HKDF expand. Recorded as [`Primitive::HkdfExpand`].
    pub fn hkdf_expand<F>(
        &self,
        table: &mut CounterTable,
        hash_type: HashType,
        prk: &[u8],
        info: &[u8],
        okm_len: usize,
        call: F,
    ) -> (result: Result<SecretVLBytes, CryptoError>)
    where F: FnOnce(&C, HashType, &[u8], &[u8], usize) -> Result<SecretVLBytes, CryptoError>
        requires
            old(table).holds(self.handle()),
            call.requires((&self.provider(), hash_type, prk, info, okm_len)),
        ensures
            call.ensures((&self.provider(), hash_type, prk, info, okm_len), result),
            recorded(*old(table), *final(table), self.handle(), Primitive::HkdfExpand),
            exists|reading: Option<Instant>, nanos: u64|
                {
                    &&& #[trigger] crate::timing::bracketed(
                        Clock::Monotonic,
                        reading,
                        result,
                        nanos,
                    )
                    &&& call_ensures(
                        call5::<
                            &C,
                            HashType,
                            &[u8],
                            &[u8],
                            usize,
                            Result<SecretVLBytes, CryptoError>,
                            F,
                        >,
                        (reading, call, &self.provider(), hash_type, prk, info, okm_len),
                        result,
                    )
                    &&& recorded_as(
                        *old(table),
                        *final(table),
                        self.handle(),
                        Primitive::HkdfExpand,
                        nanos,
                    )
                },
    {
        Self::increment(&mut table.inner(&self.counters).hkdf_expand);
        let bucket = &mut table.inner(&self.counters).sym_ns;
        let reading = start(Clock::Monotonic);
        let result = call5(reading, call, &self.inner, hash_type, prk, info, okm_len);
        let nanos: u64 = time_until(reading, &result);
        let _ = fetch_add_u64(bucket, nanos);
        proof {
            lemma_recorded(*old(table), *table, self.counters, Primitive::HkdfExpand, nanos);
            assert(crate::timing::bracketed(Clock::Monotonic, reading, result, nanos));
        }
        result
    }

    /// Hash of `data`. Recorded as [`Primitive::Hash`].
    pub fn hash<F>(
        &self,
        table: &mut CounterTable,
        hash_type: HashType,
        data: &[u8],
        call: F,
    ) -> (result: Result<Vec<u8>, CryptoError>)
    where F: FnOnce(&C, HashType, &[u8]) -> Result<Vec<u8>, CryptoError>
        requires
            old(table).holds(self.handle()),
            call.requires((&self.provider(), hash_type, data)),
        ensures
            call.ensures((&self.provider(), hash_type, data), result),
            recorded(*old(table), *final(table), self.handle(), Primitive::Hash),
            exists|reading: Option<Instant>, nanos: u64|
                {
                    &&& #[trigger] crate::timing::bracketed(
                        Clock::Monotonic,
                        reading,
                        result,
                        nanos,
                    )
                    &&& call_ensures(
                        call3::<
                            &C,
                            HashType,
                            &[u8],
                            Result<Vec<u8>, CryptoError>,
                            F,
                        >,
                        (reading, call, &self.provider(), hash_type, data),
                        result,
                    )
                    &&& recorded_as(
                        *old(table),
                        *final(table),
                        self.handle(),
                        Primitive::Hash,
                        nanos,
                    )
                },
    {
        Self::increment(&mut table.inner(&self.counters).hash);
        let bucket = &mut table.inner(&self.counters).sym_ns;
        let reading = start(Clock::Monotonic);
        let result = call3(reading, call, &self.inner, hash_type, data);
        let nanos: u64 = time_until(reading, &result);
        let _ = fetch_add_u64(bucket, nanos);
        proof {
            lemma_recorded(*old(table), *table, self.counters, Primitive::Hash, nanos);
            assert(crate::timing::bracketed(Clock::Monotonic, reading, result, nanos));
        }
        result
    }

    /// AEAD encryption of `data`. Recorded as [`Primitive::AeadEncrypt`].
    pub fn aead_encrypt<F>(
        &self,
        table: &mut CounterTable,
        alg: AeadType,
        key: &[u8],
        data: &[u8],
        nonce: &[u8],
        aad: &[u8],
        call: F,
    ) -> (result: Result<Vec<u8>, CryptoError>)
    where F: FnOnce(&C, AeadType, &[u8], &[u8], &[u8], &[u8]) -> Result<Vec<u8>, CryptoError>
        requires
            old(table).holds(self.handle()),
            call.requires((&self.provider(), alg, key, data, nonce, aad)),
        ensures
            call.ensures((&self.provider(), alg, key, data, nonce, aad), result),
            recorded(*old(table), *final(table), self.handle(), Primitive::AeadEncrypt),
            exists|reading: Option<Instant>, nanos: u64|
                {
                    &&& #[trigger] crate::timing::bracketed(
                        Clock::Monotonic,
                        reading,
                        result,
                        nanos,
                    )
                    &&& call_ensures(
                        call6::<
                            &C,
                            AeadType,
                            &[u8],
                            &[u8],
                            &[u8],
                            &[u8],
                            Result<Vec<u8>, CryptoError>,
                            F,
                        >,
                        (reading, call, &self.provider(), alg, key, data, nonce, aad),
                        result,
                    )
                    &&& recorded_as(
                        *old(table),
                        *final(table),
                        self.handle(),
                        Primitive::AeadEncrypt,
                        nanos,
                    )
                },
    {
        Self::increment(&mut table.inner(&self.counters).aead_encrypt);
        let bucket = &mut table.inner(&self.counters).sym_ns;
        let reading = start(Clock::Monotonic);
        let result = call6(reading, call, &self.inner, alg, key, data, nonce, aad);
        let nanos: u64 = time_until(reading, &result);
        let _ = fetch_add_u64(bucket, nanos);
        proof {
            lemma_recorded(*old(table), *table, self.counters, Primitive::AeadEncrypt, nanos);
            assert(crate::timing::bracketed(Clock::Monotonic, reading, result, nanos));
        }
        result
    }

    /// AEAD decryption of `ct_tag`. Recorded as [`Primitive::AeadDecrypt`].
    pub fn aead_decrypt<F>(
        &self,
        table: &mut CounterTable,
        alg: AeadType,
        key: &[u8],
        ct_tag: &[u8],
        nonce: &[u8],
        aad: &[u8],
        call: F,
    ) -> (result: Result<Vec<u8>, CryptoError>)
    where F: FnOnce(&C, AeadType, &[u8], &[u8], &[u8], &[u8]) -> Result<Vec<u8>, CryptoError>
        requires
            old(table).holds(self.handle()),
            call.requires((&self.provider(), alg, key, ct_tag, nonce, aad)),
        ensures
            call.ensures((&self.provider(), alg, key, ct_tag, nonce, aad), result),
            recorded(*old(table), *final(table), self.handle(), Primitive::AeadDecrypt),
            exists|reading: Option<Instant>, nanos: u64|
                {
                    &&& #[trigger] crate::timing::bracketed(
                        Clock::Monotonic,
                        reading,
                        result,
                        nanos,
                    )
                    &&& call_ensures(
                        call6::<
                            &C,
                            AeadType,
                            &[u8],
                            &[u8],
                            &[u8],
                            &[u8],
                            Result<Vec<u8>, CryptoError>,
                            F,
                        >,
                        (reading, call, &self.provider(), alg, key, ct_tag, nonce, aad),
                        result,
                    )
                    &&& recorded_as(
                        *old(table),
                        *final(table),
                        self.handle(),
                        Primitive::AeadDecrypt,
                        nanos,
                    )
                },
    {
        Self::increment(&mut table.inner(&self.counters).aead_decrypt);
        let bucket = &mut table.inner(&self.counters).sym_ns;
        let reading = start(Clock::Monotonic);
        let result = call6(reading, call, &self.inner, alg, key, ct_tag, nonce, aad);
        let nanos: u64 = time_until(reading, &result);
        let _ = fetch_add_u64(bucket, nanos);
        proof {
            lemma_recorded(*old(table), *table, self.counters, Primitive::AeadDecrypt, nanos);
            assert(crate::timing::bracketed(Clock::Monotonic, reading, result, nanos));
        }
        result
    }

    /// Generation of a signature key pair. Recorded as [`Primitive::SignatureKeyGen`].
    pub fn signature_key_gen<F>(
        &self,
        table: &mut CounterTable,
        alg: SignatureScheme,
        call: F,
    ) -> (result: Result<(Vec<u8>, Vec<u8>), CryptoError>)
    where F: FnOnce(&C, SignatureScheme) -> Result<(Vec<u8>, Vec<u8>), CryptoError>
        requires
            old(table).holds(self.handle()),
            call.requires((&self.provider(), alg)),
        ensures
            call.ensures((&self.provider(), alg), result),
            recorded(*old(table), *final(table), self.handle(), Primitive::SignatureKeyGen),
            exists|reading: Option<Instant>, nanos: u64|
                {
                    &&& #[trigger] crate::timing::bracketed(
                        Clock::Monotonic,
                        reading,
                        result,
                        nanos,
                    )
                    &&& call_ensures(
                        call2::<
                            &C,
                            SignatureScheme,
                            Result<(Vec<u8>, Vec<u8>), CryptoError>,
                            F,
                        >,
                        (reading, call, &self.provider(), alg),
                        result,
                    )
                    &&& recorded_as(
                        *old(table),
                        *final(table),
                        self.handle(),
                        Primitive::SignatureKeyGen,
                        nanos,
                    )
                },
    {
        Self::increment(&mut table.inner(&self.counters).signature_key_gen);
        let bucket = &mut table.inner(&self.counters).pubkey_ns;
        let reading = start(Clock::Monotonic);
        let result = call2(reading, call, &self.inner, alg);
        let nanos: u64 = time_until(reading, &result);
        let _ = fetch_add_u64(bucket, nanos);
        proof {
            lemma_recorded(*old(table), *table, self.counters, Primitive::SignatureKeyGen, nanos);
            assert(crate::timing::bracketed(Clock::Monotonic, reading, result, nanos));
        }
        result
    }

    /// Verification of `signature` over `data`. Recorded as [`Primitive::VerifySignature`].
    pub fn verify_signature<F>(
        &self,
        table: &mut CounterTable,
        alg: SignatureScheme,
        data: &[u8],
        pk: &[u8],
        signature: &[u8],
        call: F,
    ) -> (result: Result<(), CryptoError>)
    where F: FnOnce(&C, SignatureScheme, &[u8], &[u8], &[u8]) -> Result<(), CryptoError>
        requires
            old(table).holds(self.handle()),
            call.requires((&self.provider(), alg, data, pk, signature)),
        ensures
            call.ensures((&self.provider(), alg, data, pk, signature), result),
            recorded(*old(table), *final(table), self.handle(), Primitive::VerifySignature),
            exists|reading: Option<Instant>, nanos: u64|
                {
                    &&& #[trigger] crate::timing::bracketed(
                        Clock::Monotonic,
                        reading,
                        result,
                        nanos,
                    )
                    &&& call_ensures(
                        call5::<
                            &C,
                            SignatureScheme,
                            &[u8],
                            &[u8],
                            &[u8],
                            Result<(), CryptoError>,
                            F,
                        >,
                        (reading, call, &self.provider(), alg, data, pk, signature),
                        result,
                    )
                    &&& recorded_as(
                        *old(table),
                        *final(table),
                        self.handle(),
                        Primitive::VerifySignature,
                        nanos,
                    )
                },
    {
        Self::increment(&mut table.inner(&self.counters).verify_signature);
        let bucket = &mut table.inner(&self.counters).pubkey_ns;
        let reading = start(Clock::Monotonic);
        let result = call5(reading, call, &self.inner, alg, data, pk, signature);
        let nanos: u64 = time_until(reading, &result);
        let _ = fetch_add_u64(bucket, nanos);
        proof {
            lemma_recorded(*old(table), *table, self.counters, Primitive::VerifySignature, nanos);
            assert(crate::timing::bracketed(Clock::Monotonic, reading, result, nanos));
        }
        result
    }

    /// Signature over `data`. Recorded as [`Primitive::Sign`].
    pub fn sign<F>(
        &self,
        table: &mut CounterTable,
        alg: SignatureScheme,
        data: &[u8],
        key: &[u8],
        call: F,
    ) -> (result: Result<Vec<u8>, CryptoError>)
    where F: FnOnce(&C, SignatureScheme, &[u8], &[u8]) -> Result<Vec<u8>, CryptoError>
        requires
            old(table).holds(self.handle()),
            call.requires((&self.provider(), alg, data, key)),
        ensures
            call.ensures((&self.provider(), alg, data, key), result),
            recorded(*old(table), *final(table), self.handle(), Primitive::Sign),
            exists|reading: Option<Instant>, nanos: u64|
                {
                    &&& #[trigger] crate::timing::bracketed(
                        Clock::Monotonic,
                        reading,
                        result,
                        nanos,
                    )
                    &&& call_ensures(
                        call4::<
                            &C,
                            SignatureScheme,
                            &[u8],
                            &[u8],
                            Result<Vec<u8>, CryptoError>,
                            F,
                        >,
                        (reading, call, &self.provider(), alg, data, key),
                        result,
                    )
                    &&& recorded_as(
                        *old(table),
                        *final(table),
                        self.handle(),
                        Primitive::Sign,
                        nanos,
                    )
                },
    {
        Self::increment(&mut table.inner(&self.counters).sign);
        let bucket = &mut table.inner(&self.counters).pubkey_ns;
        let reading = start(Clock::Monotonic);
        let result = call4(reading, call, &self.inner, alg, data, key);
        let nanos: u64 = time_until(reading, &result);
        let _ = fetch_add_u64(bucket, nanos);
        proof {
            lemma_recorded(*old(table), *table, self.counters, Primitive::Sign, nanos);
            assert(crate::timing::bracketed(Clock::Monotonic, reading, result, nanos));
        }
        result
    }

    /// HPKE single-shot encryption of `ptxt`. Recorded as [`Primitive::HpkeSeal`].
    pub fn hpke_seal<F>(
        &self,
        table: &mut CounterTable,
        config: HpkeConfig,
        pk_r: &[u8],
        info: &[u8],
        aad: &[u8],
        ptxt: &[u8],
        call: F,
    ) -> (result: Result<HpkeCiphertext, CryptoError>)
    where
        F: FnOnce(
            &C,
            HpkeConfig,
            &[u8],
            &[u8],
            &[u8],
            &[u8],
        ) -> Result<HpkeCiphertext, CryptoError>,
        requires
            old(table).holds(self.handle()),
            call.requires((&self.provider(), config, pk_r, info, aad, ptxt)),
        ensures
            call.ensures((&self.provider(), config, pk_r, info, aad, ptxt), result),
            recorded(*old(table), *final(table), self.handle(), Primitive::HpkeSeal),
            exists|reading: Option<Instant>, nanos: u64|
                {
                    &&& #[trigger] crate::timing::bracketed(
                        Clock::Monotonic,
                        reading,
                        result,
                        nanos,
                    )
                    &&& call_ensures(
                        call6::<
                            &C,
                            HpkeConfig,
                            &[u8],
                            &[u8],
                            &[u8],
                            &[u8],
                            Result<HpkeCiphertext, CryptoError>,
                            F,
                        >,
                        (reading, call, &self.provider(), config, pk_r, info, aad, ptxt),
                        result,
                    )
                    &&& recorded_as(
                        *old(table),
                        *final(table),
                        self.handle(),
                        Primitive::HpkeSeal,
                        nanos,
                    )
                },
    {
        Self::increment(&mut table.inner(&self.counters).hpke_seal);
        let bucket = &mut table.inner(&self.counters).pubkey_ns;
        let reading = start(Clock::Monotonic);
        let result = call6(reading, call, &self.inner, config, pk_r, info, aad, ptxt);
        let nanos: u64 = time_until(reading, &result);
        let _ = fetch_add_u64(bucket, nanos);
        proof {
            lemma_recorded(*old(table), *table, self.counters, Primitive::HpkeSeal, nanos);
            assert(crate::timing::bracketed(Clock::Monotonic, reading, result, nanos));
        }
        result
    }

    /// HPKE single-shot decryption of `input`. Recorded as [`Primitive::HpkeOpen`].
    pub fn hpke_open<F>(
        &self,
        table: &mut CounterTable,
        config: HpkeConfig,
        input: &HpkeCiphertext,
        sk_r: &[u8],
        info: &[u8],
        aad: &[u8],
        call: F,
    ) -> (result: Result<Vec<u8>, CryptoError>)
    where
        F: FnOnce(
            &C,
            HpkeConfig,
            &HpkeCiphertext,
            &[u8],
            &[u8],
            &[u8],
        ) -> Result<Vec<u8>, CryptoError>,
        requires
            old(table).holds(self.handle()),
            call.requires((&self.provider(), config, input, sk_r, info, aad)),
        ensures
            call.ensures((&self.provider(), config, input, sk_r, info, aad), result),
            recorded(*old(table), *final(table), self.handle(), Primitive::HpkeOpen),
            exists|reading: Option<Instant>, nanos: u64|
                {
                    &&& #[trigger] crate::timing::bracketed(
                        Clock::Monotonic,
                        reading,
                        result,
                        nanos,
                    )
                    &&& call_ensures(
                        call6::<
                            &C,
                            HpkeConfig,
                            &HpkeCiphertext,
                            &[u8],
                            &[u8],
                            &[u8],
                            Result<Vec<u8>, CryptoError>,
                            F,
                        >,
                        (reading, call, &self.provider(), config, input, sk_r, info, aad),
                        result,
                    )
                    &&& recorded_as(
                        *old(table),
                        *final(table),
                        self.handle(),
                        Primitive::HpkeOpen,
                        nanos,
                    )
                },
    {
        Self::increment(&mut table.inner(&self.counters).hpke_open);
        let bucket = &mut table.inner(&self.counters).pubkey_ns;
        let reading = start(Clock::Monotonic);
        let result = call6(reading, call, &self.inner, config, input, sk_r, info, aad);
        let nanos: u64 = time_until(reading, &result);
        let _ = fetch_add_u64(bucket, nanos);
        proof {
            lemma_recorded(*old(table), *table, self.counters, Primitive::HpkeOpen, nanos);
            assert(crate::timing::bracketed(Clock::Monotonic, reading, result, nanos));
        }
        result
    }

    /// HPKE setup of a sender, with export of a secret. Recorded as
    /// [`Primitive::HpkeSetupSenderAndExport`].
    pub fn hpke_setup_sender_and_export<F>(
        &self,
        table: &mut CounterTable,
        config: HpkeConfig,
        pk_r: &[u8],
        info: &[u8],
        exporter_context: &[u8],
        exporter_length: usize,
        call: F,
    ) -> (result: Result<(KemOutput, ExporterSecret), CryptoError>)
    where
        F: FnOnce(
            &C,
            HpkeConfig,
            &[u8],
            &[u8],
            &[u8],
            usize,
        ) -> Result<(KemOutput, ExporterSecret), CryptoError>,
        requires
            old(table).holds(self.handle()),
            call.requires(
                (&self.provider(), config, pk_r, info, exporter_context, exporter_length),
            ),
        ensures
            call.ensures(
                (&self.provider(), config, pk_r, info, exporter_context, exporter_length),
                result,
            ),
            recorded(
                *old(table),
                *final(table),
                self.handle(),
                Primitive::HpkeSetupSenderAndExport,
            ),
            exists|reading: Option<Instant>, nanos: u64|
                {
                    &&& #[trigger] crate::timing::bracketed(
                        Clock::Monotonic,
                        reading,
                        result,
                        nanos,
                    )
                    &&& call_ensures(
                        call6::<
                            &C,
                            HpkeConfig,
                            &[u8],
                            &[u8],
                            &[u8],
                            usize,
                            Result<(KemOutput, ExporterSecret), CryptoError>,
                            F,
                        >,
                        (
                            reading,
                            call,
                            &self.provider(),
                            config,
                            pk_r,
                            info,
                            exporter_context,
                            exporter_length,
                        ),
                        result,
                    )
                    &&& recorded_as(
                        *old(table),
                        *final(table),
                        self.handle(),
                        Primitive::HpkeSetupSenderAndExport,
                        nanos,
                    )
                },
    {
        Self::increment(&mut table.inner(&self.counters).hpke_setup_sender_and_export);
        let bucket = &mut table.inner(&self.counters).pubkey_ns;
        let reading = start(Clock::Monotonic);
        let result = call6(
            reading,
            call,
            &self.inner,
            config,
            pk_r,
            info,
            exporter_context,
            exporter_length,
        );
        let nanos: u64 = time_until(reading, &result);
        let _ = fetch_add_u64(bucket, nanos);
        proof {
            lemma_recorded(
                *old(table),
                *table,
                self.counters,
                Primitive::HpkeSetupSenderAndExport,
                nanos,
            );
            assert(crate::timing::bracketed(Clock::Monotonic, reading, result, nanos));
        }
        result
    }

    /// HPKE setup of a receiver, with export of a secret. Recorded as
    /// [`Primitive::HpkeSetupReceiverAndExport`].
    pub fn hpke_setup_receiver_and_export<F>(
        &self,
        table: &mut CounterTable,
        config: HpkeConfig,
        enc: &[u8],
        sk_r: &[u8],
        info: &[u8],
        exporter_context: &[u8],
        exporter_length: usize,
        call: F,
    ) -> (result: Result<ExporterSecret, CryptoError>)
    where
        F: FnOnce(
            &C,
            HpkeConfig,
            &[u8],
            &[u8],
            &[u8],
            &[u8],
            usize,
        ) -> Result<ExporterSecret, CryptoError>,
        requires
            old(table).holds(self.handle()),
            call.requires(
                (&self.provider(), config, enc, sk_r, info, exporter_context, exporter_length),
            ),
        ensures
            call.ensures(
                (&self.provider(), config, enc, sk_r, info, exporter_context, exporter_length),
                result,
            ),
            recorded(
                *old(table),
                *final(table),
                self.handle(),
                Primitive::HpkeSetupReceiverAndExport,
            ),
            exists|reading: Option<Instant>, nanos: u64|
                {
                    &&& #[trigger] crate::timing::bracketed(
                        Clock::Monotonic,
                        reading,
                        result,
                        nanos,
                    )
                    &&& call_ensures(
                        call7::<
                            &C,
                            HpkeConfig,
                            &[u8],
                            &[u8],
                            &[u8],
                            &[u8],
                            usize,
                            Result<ExporterSecret, CryptoError>,
                            F,
                        >,
                        (
                            reading,
                            call,
                            &self.provider(),
                            config,
                            enc,
                            sk_r,
                            info,
                            exporter_context,
                            exporter_length,
                        ),
                        result,
                    )
                    &&& recorded_as(
                        *old(table),
                        *final(table),
                        self.handle(),
                        Primitive::HpkeSetupReceiverAndExport,
                        nanos,
                    )
                },
    {
        Self::increment(&mut table.inner(&self.counters).hpke_setup_receiver_and_export);
        let bucket = &mut table.inner(&self.counters).pubkey_ns;
        let reading = start(Clock::Monotonic);
        let result = call7(
            reading,
            call,
            &self.inner,
            config,
            enc,
            sk_r,
            info,
            exporter_context,
            exporter_length,
        );
        let nanos: u64 = time_until(reading, &result);
        let _ = fetch_add_u64(bucket, nanos);
        proof {
            lemma_recorded(
                *old(table),
                *table,
                self.counters,
                Primitive::HpkeSetupReceiverAndExport,
                nanos,
            );
            assert(crate::timing::bracketed(Clock::Monotonic, reading, result, nanos));
        }
        result
    }

    /// Derivation of an HPKE key pair. Recorded as [`Primitive::DeriveHpkeKeypair`].
    pub fn derive_hpke_keypair<F>(
        &self,
        table: &mut CounterTable,
        config: HpkeConfig,
        ikm: &[u8],
        call: F,
    ) -> (result: Result<HpkeKeyPair, CryptoError>)
    where F: FnOnce(&C, HpkeConfig, &[u8]) -> Result<HpkeKeyPair, CryptoError>
        requires
            old(table).holds(self.handle()),
            call.requires((&self.provider(), config, ikm)),
        ensures
            call.ensures((&self.provider(), config, ikm), result),
            recorded(*old(table), *final(table), self.handle(), Primitive::DeriveHpkeKeypair),
            exists|reading: Option<Instant>, nanos: u64|
                {
                    &&& #[trigger] crate::timing::bracketed(
                        Clock::Monotonic,
                        reading,
                        result,
                        nanos,
                    )
                    &&& call_ensures(
                        call3::<
                            &C,
                            HpkeConfig,
                            &[u8],
                            Result<HpkeKeyPair, CryptoError>,
                            F,
                        >,
                        (reading, call, &self.provider(), config, ikm),
                        result,
                    )
                    &&& recorded_as(
                        *old(table),
                        *final(table),
                        self.handle(),
                        Primitive::DeriveHpkeKeypair,
                        nanos,
                    )
                },
    {
        Self::increment(&mut table.inner(&self.counters).derive_hpke_keypair);
        let bucket = &mut table.inner(&self.counters).pubkey_ns;
        let reading = start(Clock::Monotonic);
        let result = call3(reading, call, &self.inner, config, ikm);
        let nanos: u64 = time_until(reading, &result);
        let _ = fetch_add_u64(bucket, nanos);
        proof {
            lemma_recorded(*old(table), *table, self.counters, Primitive::DeriveHpkeKeypair, nanos);
            assert(crate::timing::bracketed(Clock::Monotonic, reading, result, nanos));
        }
        result
    }

    /// `N` random bytes. One call and `N` bytes are recorded, and no time.
    pub fn random_array<const N: usize, E, F>(
        &self,
        table: &mut CounterTable,
        call: F,
    ) -> (result: Result<[u8; N], E>)
    where F: FnOnce(&C) -> Result<[u8; N], E>
        requires
            old(table).holds(self.handle()),
            call.requires((&self.provider(),)),
        ensures
            call.ensures((&self.provider(),), result),
            final(table)@ == old(table).with(
                self.handle(),
                old(table).at(self.handle()).after(Event::Random(N as u64)),
            ),
    {
        let counters = table.inner(&self.counters);
        Self::increment(&mut counters.random_calls);
        let _ = fetch_add_u64(&mut counters.random_bytes, N as u64);
        proof {
            lemma_random(old(table).at(self.counters), *counters, N as u64);
        }
        call(&self.inner)
    }

    /// `len` random bytes. One call and `len` bytes are recorded, and no time.
    pub fn random_vec<E, F>(
        &self,
        table: &mut CounterTable,
        len: usize,
        call: F,
    ) -> (result: Result<Vec<u8>, E>)
    where F: FnOnce(&C, usize) -> Result<Vec<u8>, E>
        requires
            old(table).holds(self.handle()),
            call.requires((&self.provider(), len)),
        ensures
            call.ensures((&self.provider(), len), result),
            final(table)@ == old(table).with(
                self.handle(),
                old(table).at(self.handle()).after(Event::Random(len as u64)),
            ),
    {
        let counters = table.inner(&self.counters);
        Self::increment(&mut counters.random_calls);
        let _ = fetch_add_u64(&mut counters.random_bytes, len as u64);
        proof {
            lemma_random(old(table).at(self.counters), *counters, len as u64);
        }
        call(&self.inner, len)
    }
}

} // verus!
