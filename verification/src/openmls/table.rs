//! Where counters live, and the handles that name them.

use crate::cell::fetch_add_u64;
use crate::openmls::counters::{CounterInner, PrimitiveCounters};
use vstd::prelude::*;

verus! {

/// The memory that counters live in: one block of cells for each peer. Whoever
/// holds the handle of a block reaches that same block, so what is counted
/// through one handle is seen through every copy of it.
#[derive(Debug)]
pub struct CounterTable {
    blocks: Vec<CounterInner>,
}

/// Shareable handle used by the benchmark harness to reset and snapshot a peer.
/// Copies of a handle name the same counters.
///
/// A handle is good only with the table that gave it out. It is the place of a block
/// in that table, so with another table it names whatever block is in that place
/// there, if there is one.
#[derive(Clone, Copy, Debug, PartialEq, Eq, Structural)]
pub struct CounterHandle {
    block: usize,
}

impl View for CounterTable {
    type V = Seq<CounterInner>;

    closed spec fn view(&self) -> Seq<CounterInner> {
        self.blocks@
    }
}

impl CounterTable {
    /// The table has a block for `handle`. It is the peer's own block only if this is
    /// the table that gave the handle out; the place alone does not tell.
    pub open spec fn holds(self, handle: CounterHandle) -> bool {
        handle.index() < self@.len()
    }

    /// The counters that `handle` names.
    pub open spec fn at(self, handle: CounterHandle) -> CounterInner {
        self@[handle.index() as int]
    }

    /// What the table holds once the counters of `handle` are `counters`, and all
    /// others are as they were.
    pub open spec fn with(
        self,
        handle: CounterHandle,
        counters: CounterInner,
    ) -> Seq<CounterInner> {
        self@.update(handle.index() as int, counters)
    }

    /// A table without counters.
    pub fn new() -> (table: CounterTable)
        ensures
            table@ == Seq::<CounterInner>::empty(),
    {
        CounterTable { blocks: Vec::new() }
    }

    /// Whether the table has a block for `handle`. As with [`CounterTable::holds`], it
    /// does not tell whether this is the table that gave the handle out.
    pub fn contains(&self, handle: &CounterHandle) -> (held: bool)
        ensures
            held == self.holds(*handle),
    {
        handle.block < self.blocks.len()
    }

    /// The counters that `handle` names, to be changed in place.
    pub fn inner(&mut self, handle: &CounterHandle) -> (counters: &mut CounterInner)
        requires
            old(self).holds(*handle),
        ensures
            *counters == old(self).at(*handle),
            final(self)@ == old(self).with(*handle, *final(counters)),
    {
        &mut self.blocks[handle.block]
    }
}

impl CounterHandle {
    /// Which block of a table the handle names.
    pub closed spec fn index(self) -> nat {
        self.block as nat
    }

    /// A handle for counters of its own, which start at zero.
    pub fn default(table: &mut CounterTable) -> (handle: CounterHandle)
        ensures
            handle.index() == old(table)@.len(),
            final(table)@ == old(table)@.push(CounterInner::zero()),
    {
        let block: usize = table.blocks.len();
        table.blocks.push(CounterInner::default());
        CounterHandle { block }
    }

    /// Sets every counter that the handle names to zero.
    pub fn reset(&self, table: &mut CounterTable)
        requires
            old(table).holds(*self),
        ensures
            final(table)@ == old(table).with(*self, CounterInner::zero()),
    {
        let inner = table.inner(self);
        inner.hkdf_extract = 0;
        inner.hmac = 0;
        inner.hkdf_expand = 0;
        inner.hash = 0;
        inner.aead_encrypt = 0;
        inner.aead_decrypt = 0;
        inner.signature_key_gen = 0;
        inner.verify_signature = 0;
        inner.sign = 0;
        inner.hpke_seal = 0;
        inner.hpke_open = 0;
        inner.hpke_setup_sender_and_export = 0;
        inner.hpke_setup_receiver_and_export = 0;
        inner.derive_hpke_keypair = 0;
        inner.random_calls = 0;
        inner.random_bytes = 0;
        inner.pubkey_ns = 0;
        inner.sym_ns = 0;
    }

    /// Adds what a snapshot shows to every counter that the handle names. Calls that
    /// were recorded in a table apart are so brought over.
    pub fn absorb(&self, table: &mut CounterTable, added: &PrimitiveCounters)
        requires
            old(table).holds(*self),
        ensures
            final(table)@ == old(table).with(*self, old(table).at(*self).absorbed(*added)),
    {
        let inner = table.inner(self);
        let _ = fetch_add_u64(&mut inner.hkdf_extract, added.hkdf_extract);
        let _ = fetch_add_u64(&mut inner.hmac, added.hmac);
        let _ = fetch_add_u64(&mut inner.hkdf_expand, added.hkdf_expand);
        let _ = fetch_add_u64(&mut inner.hash, added.hash);
        let _ = fetch_add_u64(&mut inner.aead_encrypt, added.aead_encrypt);
        let _ = fetch_add_u64(&mut inner.aead_decrypt, added.aead_decrypt);
        let _ = fetch_add_u64(&mut inner.signature_key_gen, added.signature_key_gen);
        let _ = fetch_add_u64(&mut inner.verify_signature, added.verify_signature);
        let _ = fetch_add_u64(&mut inner.sign, added.sign);
        let _ = fetch_add_u64(&mut inner.hpke_seal, added.hpke_seal);
        let _ = fetch_add_u64(&mut inner.hpke_open, added.hpke_open);
        let _ = fetch_add_u64(
            &mut inner.hpke_setup_sender_and_export,
            added.hpke_setup_sender_and_export,
        );
        let _ = fetch_add_u64(
            &mut inner.hpke_setup_receiver_and_export,
            added.hpke_setup_receiver_and_export,
        );
        let _ = fetch_add_u64(&mut inner.derive_hpke_keypair, added.derive_hpke_keypair);
        let _ = fetch_add_u64(&mut inner.random_calls, added.random_calls);
        let _ = fetch_add_u64(&mut inner.random_bytes, added.random_bytes);
        let _ = fetch_add_u64(&mut inner.pubkey_ns, added.pubkey_ns);
        let _ = fetch_add_u64(&mut inner.sym_ns, added.sym_ns);
    }

    /// Reads every counter that the handle names, without changing any.
    pub fn snapshot(&self, table: &CounterTable) -> (counters: PrimitiveCounters)
        requires
            table.holds(*self),
        ensures
            counters == table.at(*self).reading(),
    {
        let inner = &table.blocks[self.block];
        PrimitiveCounters {
            hkdf_extract: inner.hkdf_extract,
            hmac: inner.hmac,
            hkdf_expand: inner.hkdf_expand,
            hash: inner.hash,
            aead_encrypt: inner.aead_encrypt,
            aead_decrypt: inner.aead_decrypt,
            signature_key_gen: inner.signature_key_gen,
            verify_signature: inner.verify_signature,
            sign: inner.sign,
            hpke_seal: inner.hpke_seal,
            hpke_open: inner.hpke_open,
            hpke_setup_sender_and_export: inner.hpke_setup_sender_and_export,
            hpke_setup_receiver_and_export: inner.hpke_setup_receiver_and_export,
            derive_hpke_keypair: inner.derive_hpke_keypair,
            random_calls: inner.random_calls,
            random_bytes: inner.random_bytes,
            pubkey_ns: inner.pubkey_ns,
            sym_ns: inner.sym_ns,
        }
    }
}

} // verus!
