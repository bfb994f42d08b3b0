//! The counters of one peer and what happens to them.

use vstd::prelude::*;

verus! {

/// Protocol-visible crypto primitive counters for TreeKEM evaluation runs.
#[derive(Clone, Copy, Debug, PartialEq, Eq, Structural)]
pub struct PrimitiveCounters {
    pub hkdf_extract: u64,
    pub hmac: u64,
    pub hkdf_expand: u64,
    pub hash: u64,
    pub aead_encrypt: u64,
    pub aead_decrypt: u64,
    pub signature_key_gen: u64,
    pub verify_signature: u64,
    pub sign: u64,
    pub hpke_seal: u64,
    pub hpke_open: u64,
    pub hpke_setup_sender_and_export: u64,
    pub hpke_setup_receiver_and_export: u64,
    pub derive_hpke_keypair: u64,
    pub random_calls: u64,
    pub random_bytes: u64,
    /// Nanoseconds spent inside public-key primitives (HPKE, signatures, key pair
    /// derivation). Not part of the deterministic counts.
    pub pubkey_ns: u64,
    /// Nanoseconds spent inside symmetric primitives (hash, KDF, HMAC, AEAD). Not
    /// part of the deterministic counts.
    pub sym_ns: u64,
}

/// The live counters of one peer: a 64-bit cell for each field of a snapshot.
#[derive(Clone, Copy, Debug, PartialEq, Eq, Structural)]
pub struct CounterInner {
    pub hkdf_extract: u64,
    pub hmac: u64,
    pub hkdf_expand: u64,
    pub hash: u64,
    pub aead_encrypt: u64,
    pub aead_decrypt: u64,
    pub signature_key_gen: u64,
    pub verify_signature: u64,
    pub sign: u64,
    pub hpke_seal: u64,
    pub hpke_open: u64,
    pub hpke_setup_sender_and_export: u64,
    pub hpke_setup_receiver_and_export: u64,
    pub derive_hpke_keypair: u64,
    pub random_calls: u64,
    pub random_bytes: u64,
    pub pubkey_ns: u64,
    pub sym_ns: u64,
}

/// The primitives of a crypto provider that are counted.
#[derive(Clone, Copy, Debug, PartialEq, Eq, Structural)]
pub enum Primitive {
    HkdfExtract,
    Hmac,
    HkdfExpand,
    Hash,
    AeadEncrypt,
    AeadDecrypt,
    SignatureKeyGen,
    VerifySignature,
    Sign,
    HpkeSeal,
    HpkeOpen,
    HpkeSetupSenderAndExport,
    HpkeSetupReceiverAndExport,
    DeriveHpkeKeypair,
}

/// The buckets that time is charged to.
#[derive(Clone, Copy, Debug, PartialEq, Eq, Structural)]
pub enum Bucket {
    PublicKey,
    Symmetric,
}

/// What can happen to a peer's counters between one reset and the next.
#[derive(Clone, Copy, Debug, PartialEq, Eq, Structural)]
pub enum Event {
    /// A primitive was called.
    Count(Primitive),
    /// This many random bytes were asked for.
    Random(u64),
    /// A primitive of this kind took this many nanoseconds.
    Charge(Bucket, u64),
}

/// The cells that a peer's counters consist of.
#[derive(Clone, Copy, Debug, PartialEq, Eq, Structural)]
pub enum Cell {
    /// How often a primitive was called.
    Calls(Primitive),
    /// How often random bytes were asked for.
    RandomCalls,
    /// How many random bytes were asked for.
    RandomBytes,
    /// How many nanoseconds a kind of primitives took.
    Time(Bucket),
}

impl Primitive {
    /// The bucket that the time of this primitive is charged to: hashing, key
    /// derivation and authenticated encryption are symmetric, signatures and HPKE
    /// are public-key.
    pub open spec fn bucket(self) -> Bucket {
        match self {
            Primitive::HkdfExtract
            | Primitive::Hmac
            | Primitive::HkdfExpand
            | Primitive::Hash
            | Primitive::AeadEncrypt
            | Primitive::AeadDecrypt => Bucket::Symmetric,
            Primitive::SignatureKeyGen
            | Primitive::VerifySignature
            | Primitive::Sign
            | Primitive::HpkeSeal
            | Primitive::HpkeOpen
            | Primitive::HpkeSetupSenderAndExport
            | Primitive::HpkeSetupReceiverAndExport
            | Primitive::DeriveHpkeKeypair => Bucket::PublicKey,
        }
    }
}

impl Event {
    /// How much the event adds to `cell`.
    pub open spec fn adds(self, cell: Cell) -> u64 {
        match (self, cell) {
            (Event::Count(called), Cell::Calls(primitive)) if called == primitive => 1,
            (Event::Random(_), Cell::RandomCalls) => 1,
            (Event::Random(bytes), Cell::RandomBytes) => bytes,
            (Event::Charge(charged, nanos), Cell::Time(bucket)) if charged == bucket => nanos,
            _ => 0,
        }
    }
}

impl PrimitiveCounters {
    /// What the snapshot shows of `cell`.
    pub open spec fn value(self, cell: Cell) -> u64 {
        match cell {
            Cell::Calls(Primitive::HkdfExtract) => self.hkdf_extract,
            Cell::Calls(Primitive::Hmac) => self.hmac,
            Cell::Calls(Primitive::HkdfExpand) => self.hkdf_expand,
            Cell::Calls(Primitive::Hash) => self.hash,
            Cell::Calls(Primitive::AeadEncrypt) => self.aead_encrypt,
            Cell::Calls(Primitive::AeadDecrypt) => self.aead_decrypt,
            Cell::Calls(Primitive::SignatureKeyGen) => self.signature_key_gen,
            Cell::Calls(Primitive::VerifySignature) => self.verify_signature,
            Cell::Calls(Primitive::Sign) => self.sign,
            Cell::Calls(Primitive::HpkeSeal) => self.hpke_seal,
            Cell::Calls(Primitive::HpkeOpen) => self.hpke_open,
            Cell::Calls(Primitive::HpkeSetupSenderAndExport) => self.hpke_setup_sender_and_export,
            Cell::Calls(Primitive::HpkeSetupReceiverAndExport) => {
                self.hpke_setup_receiver_and_export
            },
            Cell::Calls(Primitive::DeriveHpkeKeypair) => self.derive_hpke_keypair,
            Cell::RandomCalls => self.random_calls,
            Cell::RandomBytes => self.random_bytes,
            Cell::Time(Bucket::PublicKey) => self.pubkey_ns,
            Cell::Time(Bucket::Symmetric) => self.sym_ns,
        }
    }

    /// Every cell at zero.
    pub open spec fn zero() -> PrimitiveCounters {
        PrimitiveCounters {
            hkdf_extract: 0,
            hmac: 0,
            hkdf_expand: 0,
            hash: 0,
            aead_encrypt: 0,
            aead_decrypt: 0,
            signature_key_gen: 0,
            verify_signature: 0,
            sign: 0,
            hpke_seal: 0,
            hpke_open: 0,
            hpke_setup_sender_and_export: 0,
            hpke_setup_receiver_and_export: 0,
            derive_hpke_keypair: 0,
            random_calls: 0,
            random_bytes: 0,
            pubkey_ns: 0,
            sym_ns: 0,
        }
    }
}

impl Default for PrimitiveCounters {
    /// Every counter at zero.
    fn default() -> (counters: Self)
        ensures
            counters == PrimitiveCounters::zero(),
    {
        PrimitiveCounters {
            hkdf_extract: 0,
            hmac: 0,
            hkdf_expand: 0,
            hash: 0,
            aead_encrypt: 0,
            aead_decrypt: 0,
            signature_key_gen: 0,
            verify_signature: 0,
            sign: 0,
            hpke_seal: 0,
            hpke_open: 0,
            hpke_setup_sender_and_export: 0,
            hpke_setup_receiver_and_export: 0,
            derive_hpke_keypair: 0,
            random_calls: 0,
            random_bytes: 0,
            pubkey_ns: 0,
            sym_ns: 0,
        }
    }
}

impl CounterInner {
    /// What `cell` holds.
    pub open spec fn value(self, cell: Cell) -> u64 {
        match cell {
            Cell::Calls(Primitive::HkdfExtract) => self.hkdf_extract,
            Cell::Calls(Primitive::Hmac) => self.hmac,
            Cell::Calls(Primitive::HkdfExpand) => self.hkdf_expand,
            Cell::Calls(Primitive::Hash) => self.hash,
            Cell::Calls(Primitive::AeadEncrypt) => self.aead_encrypt,
            Cell::Calls(Primitive::AeadDecrypt) => self.aead_decrypt,
            Cell::Calls(Primitive::SignatureKeyGen) => self.signature_key_gen,
            Cell::Calls(Primitive::VerifySignature) => self.verify_signature,
            Cell::Calls(Primitive::Sign) => self.sign,
            Cell::Calls(Primitive::HpkeSeal) => self.hpke_seal,
            Cell::Calls(Primitive::HpkeOpen) => self.hpke_open,
            Cell::Calls(Primitive::HpkeSetupSenderAndExport) => self.hpke_setup_sender_and_export,
            Cell::Calls(Primitive::HpkeSetupReceiverAndExport) => {
                self.hpke_setup_receiver_and_export
            },
            Cell::Calls(Primitive::DeriveHpkeKeypair) => self.derive_hpke_keypair,
            Cell::RandomCalls => self.random_calls,
            Cell::RandomBytes => self.random_bytes,
            Cell::Time(Bucket::PublicKey) => self.pubkey_ns,
            Cell::Time(Bucket::Symmetric) => self.sym_ns,
        }
    }

    /// Every cell at zero.
    pub open spec fn zero() -> CounterInner {
        CounterInner {
            hkdf_extract: 0,
            hmac: 0,
            hkdf_expand: 0,
            hash: 0,
            aead_encrypt: 0,
            aead_decrypt: 0,
            signature_key_gen: 0,
            verify_signature: 0,
            sign: 0,
            hpke_seal: 0,
            hpke_open: 0,
            hpke_setup_sender_and_export: 0,
            hpke_setup_receiver_and_export: 0,
            derive_hpke_keypair: 0,
            random_calls: 0,
            random_bytes: 0,
            pubkey_ns: 0,
            sym_ns: 0,
        }
    }

    /// What a snapshot shows: each cell in the field of its name.
    pub open spec fn reading(self) -> PrimitiveCounters {
        PrimitiveCounters {
            hkdf_extract: self.hkdf_extract,
            hmac: self.hmac,
            hkdf_expand: self.hkdf_expand,
            hash: self.hash,
            aead_encrypt: self.aead_encrypt,
            aead_decrypt: self.aead_decrypt,
            signature_key_gen: self.signature_key_gen,
            verify_signature: self.verify_signature,
            sign: self.sign,
            hpke_seal: self.hpke_seal,
            hpke_open: self.hpke_open,
            hpke_setup_sender_and_export: self.hpke_setup_sender_and_export,
            hpke_setup_receiver_and_export: self.hpke_setup_receiver_and_export,
            derive_hpke_keypair: self.derive_hpke_keypair,
            random_calls: self.random_calls,
            random_bytes: self.random_bytes,
            pubkey_ns: self.pubkey_ns,
            sym_ns: self.sym_ns,
        }
    }

    /// What `cell` holds after `event`.
    pub open spec fn value_after(self, event: Event, cell: Cell) -> u64 {
        self.value(cell).wrapping_add(event.adds(cell))
    }

    /// The counters after `event`: each cell has moved on by what the event adds
    /// to it.
    pub open spec fn after(self, event: Event) -> CounterInner {
        CounterInner {
            hkdf_extract: self.value_after(event, Cell::Calls(Primitive::HkdfExtract)),
            hmac: self.value_after(event, Cell::Calls(Primitive::Hmac)),
            hkdf_expand: self.value_after(event, Cell::Calls(Primitive::HkdfExpand)),
            hash: self.value_after(event, Cell::Calls(Primitive::Hash)),
            aead_encrypt: self.value_after(event, Cell::Calls(Primitive::AeadEncrypt)),
            aead_decrypt: self.value_after(event, Cell::Calls(Primitive::AeadDecrypt)),
            signature_key_gen: self.value_after(event, Cell::Calls(Primitive::SignatureKeyGen)),
            verify_signature: self.value_after(event, Cell::Calls(Primitive::VerifySignature)),
            sign: self.value_after(event, Cell::Calls(Primitive::Sign)),
            hpke_seal: self.value_after(event, Cell::Calls(Primitive::HpkeSeal)),
            hpke_open: self.value_after(event, Cell::Calls(Primitive::HpkeOpen)),
            hpke_setup_sender_and_export: self.value_after(
                event,
                Cell::Calls(Primitive::HpkeSetupSenderAndExport),
            ),
            hpke_setup_receiver_and_export: self.value_after(
                event,
                Cell::Calls(Primitive::HpkeSetupReceiverAndExport),
            ),
            derive_hpke_keypair: self.value_after(event, Cell::Calls(Primitive::DeriveHpkeKeypair)),
            random_calls: self.value_after(event, Cell::RandomCalls),
            random_bytes: self.value_after(event, Cell::RandomBytes),
            pubkey_ns: self.value_after(event, Cell::Time(Bucket::PublicKey)),
            sym_ns: self.value_after(event, Cell::Time(Bucket::Symmetric)),
        }
    }

    /// The counters with what a snapshot shows added to each cell.
    pub open spec fn absorbed(self, added: PrimitiveCounters) -> CounterInner {
        CounterInner {
            hkdf_extract: self.hkdf_extract.wrapping_add(added.hkdf_extract),
            hmac: self.hmac.wrapping_add(added.hmac),
            hkdf_expand: self.hkdf_expand.wrapping_add(added.hkdf_expand),
            hash: self.hash.wrapping_add(added.hash),
            aead_encrypt: self.aead_encrypt.wrapping_add(added.aead_encrypt),
            aead_decrypt: self.aead_decrypt.wrapping_add(added.aead_decrypt),
            signature_key_gen: self.signature_key_gen.wrapping_add(added.signature_key_gen),
            verify_signature: self.verify_signature.wrapping_add(added.verify_signature),
            sign: self.sign.wrapping_add(added.sign),
            hpke_seal: self.hpke_seal.wrapping_add(added.hpke_seal),
            hpke_open: self.hpke_open.wrapping_add(added.hpke_open),
            hpke_setup_sender_and_export: self.hpke_setup_sender_and_export.wrapping_add(
                added.hpke_setup_sender_and_export,
            ),
            hpke_setup_receiver_and_export: self.hpke_setup_receiver_and_export.wrapping_add(
                added.hpke_setup_receiver_and_export,
            ),
            derive_hpke_keypair: self.derive_hpke_keypair.wrapping_add(added.derive_hpke_keypair),
            random_calls: self.random_calls.wrapping_add(added.random_calls),
            random_bytes: self.random_bytes.wrapping_add(added.random_bytes),
            pubkey_ns: self.pubkey_ns.wrapping_add(added.pubkey_ns),
            sym_ns: self.sym_ns.wrapping_add(added.sym_ns),
        }
    }

    /// The counters after `events`, one after the other.
    pub open spec fn replayed(self, events: Seq<Event>) -> CounterInner {
        events.fold_left(self, |counters: CounterInner, event: Event| counters.after(event))
    }
}

impl Default for CounterInner {
    /// Every cell at zero.
    fn default() -> (counters: Self)
        ensures
            counters == CounterInner::zero(),
    {
        CounterInner {
            hkdf_extract: 0,
            hmac: 0,
            hkdf_expand: 0,
            hash: 0,
            aead_encrypt: 0,
            aead_decrypt: 0,
            signature_key_gen: 0,
            verify_signature: 0,
            sign: 0,
            hpke_seal: 0,
            hpke_open: 0,
            hpke_setup_sender_and_export: 0,
            hpke_setup_receiver_and_export: 0,
            derive_hpke_keypair: 0,
            random_calls: 0,
            random_bytes: 0,
            pubkey_ns: 0,
            sym_ns: 0,
        }
    }
}

/// Each cell moves on by what an event adds to it.
pub proof fn lemma_after_value(counters: CounterInner, event: Event, cell: Cell)
    ensures
        counters.after(event).value(cell) == counters.value_after(event, cell),
{
}

/// Absorbing a snapshot adds to each cell what the snapshot shows of it.
pub proof fn lemma_absorbed_value(counters: CounterInner, added: PrimitiveCounters, cell: Cell)
    ensures
        counters.absorbed(added).value(cell) == counters.value(cell).wrapping_add(
            added.value(cell),
        ),
{
}

/// A snapshot shows each cell as it is.
pub proof fn lemma_reading_value(counters: CounterInner, cell: Cell)
    ensures
        counters.reading().value(cell) == counters.value(cell),
{
}

/// Counters are the same where each cell is.
pub proof fn lemma_same_cells(one: CounterInner, other: CounterInner)
    requires
        forall|cell: Cell| one.value(cell) == #[trigger] other.value(cell),
    ensures
        one == other,
{
    assert(one.value(Cell::Calls(Primitive::HkdfExtract)) == other.value(
        Cell::Calls(Primitive::HkdfExtract),
    ));
    assert(one.value(Cell::Calls(Primitive::Hmac)) == other.value(Cell::Calls(Primitive::Hmac)));
    assert(one.value(Cell::Calls(Primitive::HkdfExpand)) == other.value(
        Cell::Calls(Primitive::HkdfExpand),
    ));
    assert(one.value(Cell::Calls(Primitive::Hash)) == other.value(Cell::Calls(Primitive::Hash)));
    assert(one.value(Cell::Calls(Primitive::AeadEncrypt)) == other.value(
        Cell::Calls(Primitive::AeadEncrypt),
    ));
    assert(one.value(Cell::Calls(Primitive::AeadDecrypt)) == other.value(
        Cell::Calls(Primitive::AeadDecrypt),
    ));
    assert(one.value(Cell::Calls(Primitive::SignatureKeyGen)) == other.value(
        Cell::Calls(Primitive::SignatureKeyGen),
    ));
    assert(one.value(Cell::Calls(Primitive::VerifySignature)) == other.value(
        Cell::Calls(Primitive::VerifySignature),
    ));
    assert(one.value(Cell::Calls(Primitive::Sign)) == other.value(Cell::Calls(Primitive::Sign)));
    assert(one.value(Cell::Calls(Primitive::HpkeSeal)) == other.value(
        Cell::Calls(Primitive::HpkeSeal),
    ));
    assert(one.value(Cell::Calls(Primitive::HpkeOpen)) == other.value(
        Cell::Calls(Primitive::HpkeOpen),
    ));
    assert(one.value(Cell::Calls(Primitive::HpkeSetupSenderAndExport)) == other.value(
        Cell::Calls(Primitive::HpkeSetupSenderAndExport),
    ));
    assert(one.value(Cell::Calls(Primitive::HpkeSetupReceiverAndExport)) == other.value(
        Cell::Calls(Primitive::HpkeSetupReceiverAndExport),
    ));
    assert(one.value(Cell::Calls(Primitive::DeriveHpkeKeypair)) == other.value(
        Cell::Calls(Primitive::DeriveHpkeKeypair),
    ));
    assert(one.value(Cell::RandomCalls) == other.value(Cell::RandomCalls));
    assert(one.value(Cell::RandomBytes) == other.value(Cell::RandomBytes));
    assert(one.value(Cell::Time(Bucket::PublicKey)) == other.value(Cell::Time(Bucket::PublicKey)));
    assert(one.value(Cell::Time(Bucket::Symmetric)) == other.value(Cell::Time(Bucket::Symmetric)));
}

} // verus!
