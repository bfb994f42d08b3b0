use crypto_instrumentation::openmls::{
    CounterHandle, CounterTable, InstrumentedCrypto, InstrumentedOpenMlsRustCrypto,
    PrimitiveCounters,
};
use openmls_memory_storage::MemoryStorage;
use openmls_traits::crypto::OpenMlsCrypto;
use openmls_traits::random::OpenMlsRand;
use openmls_traits::types::{
    AeadType, Ciphersuite, CryptoError, ExporterSecret, HashType, HpkeAeadType, HpkeCiphertext,
    HpkeConfig, HpkeKdfType, HpkeKemType, HpkeKeyPair, KemOutput, SignatureScheme,
};
use std::time::{Duration, Instant};
use tls_codec::SecretVLBytes;

/// A provider whose results spell out the arguments that it was given.
#[derive(Debug, PartialEq)]
struct Spelling {
    name: u8,
}

impl Default for Spelling {
    fn default() -> Self {
        Spelling { name: b'd' }
    }
}

impl Spelling {
    fn spell(&self, parts: &[&[u8]]) -> Vec<u8> {
        let mut out = vec![self.name];
        for part in parts {
            out.push(b'|');
            out.extend_from_slice(part);
        }
        out
    }
}

fn config_name(config: &HpkeConfig) -> &'static [u8] {
    match config.0 {
        HpkeKemType::DhKem25519 => b"x25519",
        _ => b"other",
    }
}

fn hash_name(hash_type: HashType) -> &'static [u8] {
    match hash_type {
        HashType::Sha2_256 => b"256",
        HashType::Sha2_384 => b"384",
        HashType::Sha2_512 => b"512",
    }
}

fn aead_name(alg: AeadType) -> &'static [u8] {
    match alg {
        AeadType::Aes128Gcm => b"aes128",
        AeadType::Aes256Gcm => b"aes256",
        AeadType::ChaCha20Poly1305 => b"chacha",
    }
}

fn scheme_name(alg: SignatureScheme) -> &'static [u8] {
    match alg {
        SignatureScheme::ED25519 => b"ed25519",
        _ => b"other",
    }
}

const SUITE: Ciphersuite = Ciphersuite::MLS_128_DHKEMX25519_CHACHA20POLY1305_SHA256_Ed25519;

impl OpenMlsCrypto for Spelling {
    fn supports(&self, ciphersuite: Ciphersuite) -> Result<(), CryptoError> {
        if ciphersuite == SUITE {
            Ok(())
        } else {
            Err(CryptoError::UnsupportedCiphersuite)
        }
    }

    fn supported_ciphersuites(&self) -> Vec<Ciphersuite> {
        vec![SUITE]
    }

    fn hkdf_extract(
        &self,
        hash_type: HashType,
        salt: &[u8],
        ikm: &[u8],
    ) -> Result<SecretVLBytes, CryptoError> {
        Ok(self.spell(&[hash_name(hash_type), salt, ikm]).into())
    }

    fn hmac(
        &self,
        hash_type: HashType,
        key: &[u8],
        message: &[u8],
    ) -> Result<SecretVLBytes, CryptoError> {
        Ok(self.spell(&[hash_name(hash_type), key, message]).into())
    }

    fn hkdf_expand(
        &self,
        hash_type: HashType,
        prk: &[u8],
        info: &[u8],
        okm_len: usize,
    ) -> Result<SecretVLBytes, CryptoError> {
        if okm_len > 1000 {
            return Err(CryptoError::HkdfOutputLengthInvalid);
        }
        Ok(self
            .spell(&[hash_name(hash_type), prk, info, okm_len.to_string().as_bytes()])
            .into())
    }

    fn hash(&self, hash_type: HashType, data: &[u8]) -> Result<Vec<u8>, CryptoError> {
        Ok(self.spell(&[hash_name(hash_type), data]))
    }

    fn aead_encrypt(
        &self,
        alg: AeadType,
        key: &[u8],
        data: &[u8],
        nonce: &[u8],
        aad: &[u8],
    ) -> Result<Vec<u8>, CryptoError> {
        Ok(self.spell(&[aead_name(alg), key, data, nonce, aad]))
    }

    fn aead_decrypt(
        &self,
        alg: AeadType,
        key: &[u8],
        ct_tag: &[u8],
        nonce: &[u8],
        aad: &[u8],
    ) -> Result<Vec<u8>, CryptoError> {
        if ct_tag.is_empty() {
            return Err(CryptoError::AeadDecryptionError);
        }
        Ok(self.spell(&[aead_name(alg), key, ct_tag, nonce, aad]))
    }

    fn signature_key_gen(&self, alg: SignatureScheme) -> Result<(Vec<u8>, Vec<u8>), CryptoError> {
        Ok((self.spell(&[scheme_name(alg), b"sk"]), self.spell(&[scheme_name(alg), b"pk"])))
    }

    fn verify_signature(
        &self,
        alg: SignatureScheme,
        data: &[u8],
        pk: &[u8],
        signature: &[u8],
    ) -> Result<(), CryptoError> {
        if self.spell(&[scheme_name(alg), data, pk]) == signature {
            Ok(())
        } else {
            Err(CryptoError::InvalidSignature)
        }
    }

    fn sign(&self, alg: SignatureScheme, data: &[u8], key: &[u8]) -> Result<Vec<u8>, CryptoError> {
        Ok(self.spell(&[scheme_name(alg), data, key]))
    }

    fn hpke_seal(
        &self,
        config: HpkeConfig,
        pk_r: &[u8],
        info: &[u8],
        aad: &[u8],
        ptxt: &[u8],
    ) -> Result<HpkeCiphertext, CryptoError> {
        Ok(HpkeCiphertext {
            kem_output: self.spell(&[config_name(&config), pk_r]).into(),
            ciphertext: self.spell(&[info, aad, ptxt]).into(),
        })
    }

    fn hpke_open(
        &self,
        config: HpkeConfig,
        input: &HpkeCiphertext,
        sk_r: &[u8],
        info: &[u8],
        aad: &[u8],
    ) -> Result<Vec<u8>, CryptoError> {
        Ok(self.spell(&[
            config_name(&config),
            input.kem_output.as_slice(),
            input.ciphertext.as_slice(),
            sk_r,
            info,
            aad,
        ]))
    }

    fn hpke_setup_sender_and_export(
        &self,
        config: HpkeConfig,
        pk_r: &[u8],
        info: &[u8],
        exporter_context: &[u8],
        exporter_length: usize,
    ) -> Result<(KemOutput, ExporterSecret), CryptoError> {
        Ok((
            self.spell(&[config_name(&config), pk_r, info]),
            self.spell(&[exporter_context, exporter_length.to_string().as_bytes()])
                .into(),
        ))
    }

    fn hpke_setup_receiver_and_export(
        &self,
        config: HpkeConfig,
        enc: &[u8],
        sk_r: &[u8],
        info: &[u8],
        exporter_context: &[u8],
        exporter_length: usize,
    ) -> Result<ExporterSecret, CryptoError> {
        Ok(self
            .spell(&[
                config_name(&config),
                enc,
                sk_r,
                info,
                exporter_context,
                exporter_length.to_string().as_bytes(),
            ])
            .into())
    }

    fn derive_hpke_keypair(
        &self,
        config: HpkeConfig,
        ikm: &[u8],
    ) -> Result<HpkeKeyPair, CryptoError> {
        Ok(HpkeKeyPair {
            private: self.spell(&[config_name(&config), ikm, b"sk"]).into(),
            public: self.spell(&[config_name(&config), ikm, b"pk"]),
        })
    }
}

impl OpenMlsRand for Spelling {
    type Error = CryptoError;

    fn random_array<const N: usize>(&self) -> Result<[u8; N], CryptoError> {
        if N == 0 {
            Err(CryptoError::InsufficientRandomness)
        } else {
            Ok([self.name; N])
        }
    }

    fn random_vec(&self, len: usize) -> Result<Vec<u8>, CryptoError> {
        if len == 0 {
            Err(CryptoError::InsufficientRandomness)
        } else {
            Ok(vec![self.name; len])
        }
    }
}

fn config() -> HpkeConfig {
    HpkeConfig(
        HpkeKemType::DhKem25519,
        HpkeKdfType::HkdfSha256,
        HpkeAeadType::ChaCha20Poly1305,
    )
}

fn wrapped() -> (InstrumentedCrypto<Spelling>, CounterHandle, CounterTable) {
    let mut table = CounterTable::new();
    let crypto = InstrumentedCrypto::new(Spelling { name: b'p' }, &mut table);
    let handle = crypto.counter_handle();
    (crypto, handle, table)
}

/// The counts of a snapshot, without its times.
fn counts(counters: PrimitiveCounters) -> PrimitiveCounters {
    PrimitiveCounters {
        pubkey_ns: 0,
        sym_ns: 0,
        ..counters
    }
}

fn zero() -> PrimitiveCounters {
    PrimitiveCounters::default()
}

fn busy_for(span: Duration) {
    let start = Instant::now();
    while start.elapsed() < span {}
}

#[test]
fn new_wrapper_starts_at_zero() {
    let (crypto, handle, table) = wrapped();
    assert!(table.contains(&handle));
    assert_eq!(handle.snapshot(&table), zero());
    assert_eq!(crypto.inner(), &Spelling { name: b'p' });
    assert_eq!(zero().hkdf_extract, 0);
    assert_eq!(zero().sym_ns, 0);
}

#[test]
fn default_wrapper_wraps_the_default_provider() {
    let mut table = CounterTable::new();
    let crypto: InstrumentedCrypto<Spelling> = InstrumentedCrypto::default(&mut table);
    assert_eq!(crypto.inner(), &Spelling { name: b'd' });
    assert_eq!(crypto.counter_handle().snapshot(&table), zero());
}

#[test]
fn support_is_asked_of_the_provider_and_not_counted() {
    let (crypto, handle, table) = wrapped();
    let other = Ciphersuite::MLS_128_DHKEMP256_AES128GCM_SHA256_P256;
    assert_eq!(crypto.supports(SUITE, Spelling::supports), Ok(()));
    assert_eq!(
        crypto.supports(other, Spelling::supports),
        Err(CryptoError::UnsupportedCiphersuite)
    );
    assert_eq!(crypto.supported_ciphersuites(Spelling::supported_ciphersuites), vec![SUITE]);
    assert_eq!(handle.snapshot(&table), zero());
}

#[test]
fn hkdf_extract_is_forwarded_and_counted() {
    let (crypto, handle, mut table) = wrapped();
    let out = crypto
        .hkdf_extract(&mut table, HashType::Sha2_256, b"salt", b"ikm", Spelling::hkdf_extract)
        .unwrap();
    assert_eq!(out.as_slice(), b"p|256|salt|ikm");
    let shown = handle.snapshot(&table);
    assert_eq!(counts(shown), PrimitiveCounters { hkdf_extract: 1, ..zero() });
    assert_eq!(shown.pubkey_ns, 0);
}

#[test]
fn hmac_is_forwarded_and_counted() {
    let (crypto, handle, mut table) = wrapped();
    let out = crypto
        .hmac(&mut table, HashType::Sha2_384, b"key", b"message", Spelling::hmac)
        .unwrap();
    assert_eq!(out.as_slice(), b"p|384|key|message");
    let shown = handle.snapshot(&table);
    assert_eq!(counts(shown), PrimitiveCounters { hmac: 1, ..zero() });
    assert_eq!(shown.pubkey_ns, 0);
}

#[test]
fn hkdf_expand_is_forwarded_and_counted() {
    let (crypto, handle, mut table) = wrapped();
    let out = crypto
        .hkdf_expand(&mut table, HashType::Sha2_512, b"prk", b"info", 32, Spelling::hkdf_expand)
        .unwrap();
    assert_eq!(out.as_slice(), b"p|512|prk|info|32");
    let shown = handle.snapshot(&table);
    assert_eq!(counts(shown), PrimitiveCounters { hkdf_expand: 1, ..zero() });
    assert_eq!(shown.pubkey_ns, 0);
}

#[test]
fn hash_is_forwarded_and_counted() {
    let (crypto, handle, mut table) = wrapped();
    let out = crypto.hash(&mut table, HashType::Sha2_256, b"data", Spelling::hash);
    assert_eq!(out, Ok(b"p|256|data".to_vec()));
    let shown = handle.snapshot(&table);
    assert_eq!(counts(shown), PrimitiveCounters { hash: 1, ..zero() });
    assert_eq!(shown.pubkey_ns, 0);
}

#[test]
fn aead_encrypt_is_forwarded_and_counted() {
    let (crypto, handle, mut table) = wrapped();
    let out = crypto.aead_encrypt(
        &mut table,
        AeadType::Aes128Gcm,
        b"key",
        b"data",
        b"nonce",
        b"aad",
        Spelling::aead_encrypt,
    );
    assert_eq!(out, Ok(b"p|aes128|key|data|nonce|aad".to_vec()));
    let shown = handle.snapshot(&table);
    assert_eq!(counts(shown), PrimitiveCounters { aead_encrypt: 1, ..zero() });
    assert_eq!(shown.pubkey_ns, 0);
}

#[test]
fn aead_decrypt_is_forwarded_and_counted() {
    let (crypto, handle, mut table) = wrapped();
    let out = crypto.aead_decrypt(
        &mut table,
        AeadType::ChaCha20Poly1305,
        b"key",
        b"ct",
        b"nonce",
        b"aad",
        Spelling::aead_decrypt,
    );
    assert_eq!(out, Ok(b"p|chacha|key|ct|nonce|aad".to_vec()));
    let shown = handle.snapshot(&table);
    assert_eq!(counts(shown), PrimitiveCounters { aead_decrypt: 1, ..zero() });
    assert_eq!(shown.pubkey_ns, 0);
}

#[test]
fn signature_key_gen_is_forwarded_and_counted() {
    let (crypto, handle, mut table) = wrapped();
    let out = crypto.signature_key_gen(
        &mut table,
        SignatureScheme::ED25519,
        Spelling::signature_key_gen,
    );
    assert_eq!(out, Ok((b"p|ed25519|sk".to_vec(), b"p|ed25519|pk".to_vec())));
    let shown = handle.snapshot(&table);
    assert_eq!(counts(shown), PrimitiveCounters { signature_key_gen: 1, ..zero() });
    assert_eq!(shown.sym_ns, 0);
}

#[test]
fn signing_and_verifying_are_forwarded_and_counted() {
    let (crypto, handle, mut table) = wrapped();
    let scheme = SignatureScheme::ED25519;
    let signature = crypto
        .sign(&mut table, scheme, b"data", b"key", Spelling::sign)
        .unwrap();
    assert_eq!(signature, b"p|ed25519|data|key".to_vec());
    let good = crypto.verify_signature(
        &mut table,
        scheme,
        b"data",
        b"key",
        &signature,
        Spelling::verify_signature,
    );
    let bad = crypto.verify_signature(
        &mut table,
        scheme,
        b"atad",
        b"key",
        &signature,
        Spelling::verify_signature,
    );
    assert_eq!(good, Ok(()));
    assert_eq!(bad, Err(CryptoError::InvalidSignature));
    let shown = handle.snapshot(&table);
    assert_eq!(counts(shown), PrimitiveCounters { sign: 1, verify_signature: 2, ..zero() });
    assert_eq!(shown.sym_ns, 0);
}

#[test]
fn hpke_seal_and_open_are_forwarded_and_counted() {
    let (crypto, handle, mut table) = wrapped();
    let sealed = crypto
        .hpke_seal(&mut table, config(), b"pk", b"info", b"aad", b"ptxt", Spelling::hpke_seal)
        .unwrap();
    assert_eq!(sealed.kem_output.as_slice(), b"p|x25519|pk");
    assert_eq!(sealed.ciphertext.as_slice(), b"p|info|aad|ptxt");
    let opened = crypto.hpke_open(
        &mut table,
        config(),
        &sealed,
        b"sk",
        b"info",
        b"aad",
        Spelling::hpke_open,
    );
    assert_eq!(opened, Ok(b"p|x25519|p|x25519|pk|p|info|aad|ptxt|sk|info|aad".to_vec()));
    let shown = handle.snapshot(&table);
    assert_eq!(counts(shown), PrimitiveCounters { hpke_seal: 1, hpke_open: 1, ..zero() });
    assert_eq!(shown.sym_ns, 0);
}

#[test]
fn hpke_exports_are_forwarded_and_counted() {
    let (crypto, handle, mut table) = wrapped();
    let (kem, secret) = crypto
        .hpke_setup_sender_and_export(
            &mut table,
            config(),
            b"pk",
            b"info",
            b"context",
            16,
            Spelling::hpke_setup_sender_and_export,
        )
        .unwrap();
    assert_eq!(kem, b"p|x25519|pk|info".to_vec());
    assert_eq!(&*secret, b"p|context|16");
    let received = crypto
        .hpke_setup_receiver_and_export(
            &mut table,
            config(),
            b"enc",
            b"sk",
            b"info",
            b"context",
            24,
            Spelling::hpke_setup_receiver_and_export,
        )
        .unwrap();
    assert_eq!(&*received, b"p|x25519|enc|sk|info|context|24");
    let shown = handle.snapshot(&table);
    assert_eq!(
        counts(shown),
        PrimitiveCounters {
            hpke_setup_sender_and_export: 1,
            hpke_setup_receiver_and_export: 1,
            ..zero()
        }
    );
    assert_eq!(shown.sym_ns, 0);
}

#[test]
fn key_pair_derivation_is_forwarded_and_counted() {
    let (crypto, handle, mut table) = wrapped();
    let pair = crypto
        .derive_hpke_keypair(&mut table, config(), b"ikm", Spelling::derive_hpke_keypair)
        .unwrap();
    assert_eq!(&*pair.private, b"p|x25519|ikm|sk");
    assert_eq!(pair.public, b"p|x25519|ikm|pk".to_vec());
    let shown = handle.snapshot(&table);
    assert_eq!(counts(shown), PrimitiveCounters { derive_hpke_keypair: 1, ..zero() });
    assert_eq!(shown.sym_ns, 0);
}

#[test]
fn failed_calls_are_counted_and_their_errors_returned() {
    let (crypto, handle, mut table) = wrapped();
    let decrypted = crypto.aead_decrypt(
        &mut table,
        AeadType::Aes256Gcm,
        b"key",
        b"",
        b"nonce",
        b"aad",
        Spelling::aead_decrypt,
    );
    assert_eq!(decrypted, Err(CryptoError::AeadDecryptionError));
    let expanded = crypto.hkdf_expand(
        &mut table,
        HashType::Sha2_256,
        b"prk",
        b"info",
        1001,
        Spelling::hkdf_expand,
    );
    assert_eq!(expanded.err(), Some(CryptoError::HkdfOutputLengthInvalid));
    let shown = handle.snapshot(&table);
    assert_eq!(
        counts(shown),
        PrimitiveCounters { aead_decrypt: 1, hkdf_expand: 1, ..zero() }
    );
}

#[test]
fn random_requests_count_calls_and_bytes_but_no_time() {
    let (crypto, handle, mut table) = wrapped();
    let array: Result<[u8; 32], CryptoError> =
        crypto.random_array(&mut table, Spelling::random_array::<32>);
    assert_eq!(array, Ok([b'p'; 32]));
    let vector = crypto.random_vec(&mut table, 10, Spelling::random_vec);
    assert_eq!(vector, Ok(vec![b'p'; 10]));
    let none = crypto.random_vec(&mut table, 0, Spelling::random_vec);
    assert_eq!(none, Err(CryptoError::InsufficientRandomness));
    let empty: Result<[u8; 0], CryptoError> =
        crypto.random_array(&mut table, Spelling::random_array::<0>);
    assert_eq!(empty, Err(CryptoError::InsufficientRandomness));
    assert_eq!(
        handle.snapshot(&table),
        PrimitiveCounters { random_calls: 4, random_bytes: 42, ..zero() }
    );
}

#[test]
fn time_goes_to_the_bucket_of_the_primitive() {
    let (crypto, handle, mut table) = wrapped();
    let out = crypto.hash(
        &mut table,
        HashType::Sha2_256,
        b"data",
        |inner: &Spelling, hash_type, data: &[u8]| {
            busy_for(Duration::from_millis(2));
            inner.hash(hash_type, data)
        },
    );
    assert_eq!(out, Ok(b"p|256|data".to_vec()));
    let symmetric = handle.snapshot(&table);
    assert!(symmetric.sym_ns >= 2_000_000);
    assert_eq!(symmetric.pubkey_ns, 0);
    let signed = crypto.sign(
        &mut table,
        SignatureScheme::ED25519,
        b"data",
        b"key",
        |inner: &Spelling, alg, data: &[u8], key: &[u8]| {
            busy_for(Duration::from_millis(2));
            inner.sign(alg, data, key)
        },
    );
    assert_eq!(signed, Ok(b"p|ed25519|data|key".to_vec()));
    let both = handle.snapshot(&table);
    assert!(both.pubkey_ns >= 2_000_000);
    assert_eq!(both.sym_ns, symmetric.sym_ns);
}

#[test]
fn increment_and_timed_change_one_cell() {
    let mut counter: u64 = 4;
    InstrumentedCrypto::<Spelling>::increment(&mut counter);
    assert_eq!(counter, 5);
    counter = u64::MAX;
    InstrumentedCrypto::<Spelling>::increment(&mut counter);
    assert_eq!(counter, 0);
    let mut bucket: u64 = 100;
    let result = InstrumentedCrypto::<Spelling>::timed(&mut bucket, || {
        busy_for(Duration::from_millis(1));
        "result"
    });
    assert_eq!(result, "result");
    assert!(bucket >= 1_000_100);
}

#[test]
fn reset_clears_a_peer_and_snapshots_do_not() {
    let (crypto, handle, mut table) = wrapped();
    crypto.hash(&mut table, HashType::Sha2_256, b"a", Spelling::hash).unwrap();
    crypto.random_vec(&mut table, 7, Spelling::random_vec).unwrap();
    assert_eq!(handle.snapshot(&table), handle.snapshot(&table));
    assert_eq!(handle.snapshot(&table).random_bytes, 7);
    handle.reset(&mut table);
    assert_eq!(handle.snapshot(&table), zero());
    crypto.hash(&mut table, HashType::Sha2_256, b"b", Spelling::hash).unwrap();
    assert_eq!(handle.snapshot(&table).hash, 1);
}

#[test]
fn copies_of_a_handle_share_their_counters() {
    let (crypto, handle, mut table) = wrapped();
    let copy = handle.clone();
    let again = crypto.counter_handle();
    crypto.hash(&mut table, HashType::Sha2_256, b"a", Spelling::hash).unwrap();
    assert_eq!(copy.snapshot(&table).hash, 1);
    assert_eq!(again.snapshot(&table).hash, 1);
    copy.reset(&mut table);
    assert_eq!(handle.snapshot(&table), zero());
}

#[test]
fn peers_have_counters_of_their_own() {
    let mut table = CounterTable::new();
    let one = InstrumentedCrypto::new(Spelling { name: b'1' }, &mut table);
    let two = InstrumentedCrypto::new(Spelling { name: b'2' }, &mut table);
    one.hash(&mut table, HashType::Sha2_256, b"a", Spelling::hash).unwrap();
    two.random_vec(&mut table, 3, Spelling::random_vec).unwrap();
    one.hash(&mut table, HashType::Sha2_256, b"b", Spelling::hash).unwrap();
    let shown_one = one.counter_handle().snapshot(&table);
    let shown_two = two.counter_handle().snapshot(&table);
    assert_eq!(counts(shown_one), PrimitiveCounters { hash: 2, ..zero() });
    assert_eq!(shown_two, PrimitiveCounters { random_calls: 1, random_bytes: 3, ..zero() });
    one.counter_handle().reset(&mut table);
    assert_eq!(one.counter_handle().snapshot(&table), zero());
    assert_eq!(two.counter_handle().snapshot(&table), shown_two);
}

#[test]
fn a_table_holds_the_handles_it_gave_out() {
    let mut small = CounterTable::new();
    let mut large = CounterTable::new();
    let first = CounterHandle::default(&mut small);
    assert!(small.contains(&first));
    assert!(!large.contains(&first));
    CounterHandle::default(&mut large);
    let second = CounterHandle::default(&mut large);
    assert!(large.contains(&second));
    assert!(!small.contains(&second));
    assert_eq!(second.snapshot(&large), zero());
}

#[test]
fn equal_runs_show_equal_counts() {
    let (one, one_handle, mut one_table) = wrapped();
    let (other, other_handle, mut other_table) = wrapped();
    for i in 0..5u8 {
        one.hash(&mut one_table, HashType::Sha2_256, &[i], Spelling::hash).unwrap();
        one.hmac(&mut one_table, HashType::Sha2_256, b"k", &[i], Spelling::hmac).unwrap();
    }
    for i in 0..5u8 {
        other
            .hash(
                &mut other_table,
                HashType::Sha2_256,
                &[i],
                |inner: &Spelling, hash_type, data: &[u8]| {
                    busy_for(Duration::from_micros(200));
                    inner.hash(hash_type, data)
                },
            )
            .unwrap();
        other.hmac(&mut other_table, HashType::Sha2_256, b"k", &[i], Spelling::hmac).unwrap();
    }
    let shown = one_handle.snapshot(&one_table);
    assert_eq!(counts(shown), counts(other_handle.snapshot(&other_table)));
    assert_eq!(counts(shown), PrimitiveCounters { hash: 5, hmac: 5, ..zero() });
}

#[test]
fn interleaving_does_not_matter() {
    let (one, one_handle, mut one_table) = wrapped();
    one.random_vec(&mut one_table, 1, Spelling::random_vec).unwrap();
    one.random_vec(&mut one_table, 20, Spelling::random_vec).unwrap();
    let (other, other_handle, mut other_table) = wrapped();
    other.random_vec(&mut other_table, 20, Spelling::random_vec).unwrap();
    other.random_vec(&mut other_table, 1, Spelling::random_vec).unwrap();
    assert_eq!(one_handle.snapshot(&one_table), other_handle.snapshot(&other_table));
    assert_eq!(one_handle.snapshot(&one_table).random_bytes, 21);
}

#[test]
fn a_new_peer_leaves_the_others_alone() {
    let (crypto, handle, mut table) = wrapped();
    crypto.random_vec(&mut table, 4, Spelling::random_vec).unwrap();
    let before = handle.snapshot(&table);
    let newcomer = InstrumentedCrypto::new(Spelling { name: b'n' }, &mut table).counter_handle();
    assert_ne!(newcomer, handle);
    assert_eq!(newcomer.snapshot(&table), zero());
    assert_eq!(handle.snapshot(&table), before);
}

#[test]
fn times_of_calls_add_up_since_the_reset() {
    let (crypto, handle, mut table) = wrapped();
    let slow = |inner: &Spelling, hash_type: HashType, data: &[u8]| {
        busy_for(Duration::from_millis(1));
        inner.hash(hash_type, data)
    };
    crypto.hash(&mut table, HashType::Sha2_256, b"a", slow).unwrap();
    handle.reset(&mut table);
    assert_eq!(handle.snapshot(&table).sym_ns, 0);
    crypto.hash(&mut table, HashType::Sha2_256, b"b", slow).unwrap();
    let once = handle.snapshot(&table).sym_ns;
    assert!(once >= 1_000_000);
    crypto.hash(&mut table, HashType::Sha2_256, b"c", slow).unwrap();
    assert!(handle.snapshot(&table).sym_ns >= once + 1_000_000);
    assert_eq!(handle.snapshot(&table).pubkey_ns, 0);
}

#[test]
fn both_buckets_stay_below_the_elapsed_time() {
    let (crypto, handle, mut table) = wrapped();
    handle.reset(&mut table);
    let start = Instant::now();
    for _ in 0..20 {
        crypto.hash(&mut table, HashType::Sha2_256, b"a", Spelling::hash).unwrap();
        crypto
            .sign(&mut table, SignatureScheme::ED25519, b"data", b"key", Spelling::sign)
            .unwrap();
    }
    let elapsed = start.elapsed().as_nanos() as u64;
    let shown = handle.snapshot(&table);
    assert!(shown.pubkey_ns + shown.sym_ns <= elapsed);
}

#[test]
fn absorbing_a_record_is_recording_it() {
    let (crypto, handle, mut table) = wrapped();
    crypto.hash(&mut table, HashType::Sha2_256, b"a", Spelling::hash).unwrap();
    crypto.random_vec(&mut table, 5, Spelling::random_vec).unwrap();
    let before = handle.snapshot(&table);
    let mut apart = CounterTable::new();
    let own = CounterHandle::default(&mut apart);
    assert_eq!(own, handle);
    crypto.hash(&mut apart, HashType::Sha2_256, b"b", Spelling::hash).unwrap();
    crypto.random_vec(&mut apart, 6, Spelling::random_vec).unwrap();
    let made = own.snapshot(&apart);
    handle.absorb(&mut table, &made);
    let shown = handle.snapshot(&table);
    assert_eq!(
        counts(shown),
        PrimitiveCounters { hash: 2, random_calls: 2, random_bytes: 11, ..zero() }
    );
    assert_eq!(shown.sym_ns, before.sym_ns + made.sym_ns);
    assert_eq!(shown.pubkey_ns, 0);
}

#[test]
fn absorbing_adds_each_counter_to_its_own() {
    let mut table = CounterTable::new();
    let handle = CounterHandle::default(&mut table);
    let other = CounterHandle::default(&mut table);
    let added = PrimitiveCounters {
        hkdf_extract: 1,
        hmac: 2,
        hkdf_expand: 3,
        hash: 4,
        aead_encrypt: 5,
        aead_decrypt: 6,
        signature_key_gen: 7,
        verify_signature: 8,
        sign: 9,
        hpke_seal: 10,
        hpke_open: 11,
        hpke_setup_sender_and_export: 12,
        hpke_setup_receiver_and_export: 13,
        derive_hpke_keypair: 14,
        random_calls: 15,
        random_bytes: u64::MAX,
        pubkey_ns: 17,
        sym_ns: 18,
    };
    handle.absorb(&mut table, &added);
    assert_eq!(handle.snapshot(&table), added);
    handle.absorb(&mut table, &PrimitiveCounters { random_bytes: 3, ..zero() });
    assert_eq!(handle.snapshot(&table), PrimitiveCounters { random_bytes: 2, ..added });
    assert_eq!(other.snapshot(&table), zero());
}

/// A provider without counters.
#[derive(Default)]
struct Plain {
    crypto: Spelling,
    store: MemoryStorage,
}

#[test]
fn provider_counts_through_crypto_and_rand() {
    let mut table = CounterTable::new();
    let provider: InstrumentedOpenMlsRustCrypto<Spelling> =
        InstrumentedOpenMlsRustCrypto::default(&mut table);
    let handle = provider.counter_handle();
    assert_eq!(provider.crypto().inner(), &Spelling { name: b'd' });
    assert_eq!(handle.snapshot(&table), zero());
    provider
        .crypto()
        .hash(&mut table, HashType::Sha2_256, b"a", Spelling::hash)
        .unwrap();
    provider
        .rand()
        .random_vec(&mut table, 9, Spelling::random_vec)
        .unwrap();
    let shown = handle.snapshot(&table);
    assert_eq!(
        counts(shown),
        PrimitiveCounters { hash: 1, random_calls: 1, random_bytes: 9, ..zero() }
    );
}

#[test]
fn provider_has_a_store_that_starts_empty() {
    let mut table = CounterTable::new();
    let provider: InstrumentedOpenMlsRustCrypto<Spelling> =
        InstrumentedOpenMlsRustCrypto::default(&mut table);
    assert!(provider.storage().values.read().unwrap().is_empty());
    provider
        .storage()
        .values
        .write()
        .unwrap()
        .insert(b"key".to_vec(), b"value".to_vec());
    assert_eq!(provider.storage().values.read().unwrap().len(), 1);
}

#[test]
fn uninstrumented_provider_is_a_default_one() {
    let mut table = CounterTable::new();
    let provider: InstrumentedOpenMlsRustCrypto<Spelling> =
        InstrumentedOpenMlsRustCrypto::default(&mut table);
    provider
        .storage()
        .values
        .write()
        .unwrap()
        .insert(b"key".to_vec(), b"value".to_vec());
    let plain: Plain = provider.into_uninstrumented();
    assert_eq!(plain.crypto, Spelling { name: b'd' });
    assert!(plain.store.values.read().unwrap().is_empty());
}
