//! A complete provider: instrumented crypto with an ordinary key store.

use crate::openmls::counters::CounterInner;
use crate::openmls::crypto::InstrumentedCrypto;
use crate::openmls::table::{CounterHandle, CounterTable};
use openmls_memory_storage::MemoryStorage;
use vstd::prelude::*;

verus! {

/// `MemoryStorage::default` makes a key store. A store is opaque here and can be
/// written through a shared reference, so nothing is claimed of what it holds.
pub assume_specification[ <MemoryStorage as Default>::default ]() -> (store: MemoryStorage);

/// Default OpenMLS provider with an instrumented crypto provider and normal memory
/// storage.
#[derive(Debug)]
pub struct InstrumentedOpenMlsRustCrypto<C> {
    crypto: InstrumentedCrypto<C>,
    key_store: MemoryStorage,
}

impl<C> InstrumentedOpenMlsRustCrypto<C> {
    /// The instrumented crypto provider.
    pub closed spec fn instrumented(self) -> InstrumentedCrypto<C> {
        self.crypto
    }

    /// The key store.
    pub closed spec fn store(self) -> MemoryStorage {
        self.key_store
    }

    /// A provider around the default crypto provider and a default key store, with
    /// counters of its own that start at zero.
    pub fn default(table: &mut CounterTable) -> (provider: Self) where C: Default
        ensures
            call_ensures(C::default, (), provider.instrumented().provider()),
            call_ensures(<MemoryStorage as Default>::default, (), provider.store()),
            provider.instrumented().handle().index() == old(table)@.len(),
            final(table)@ == old(table)@.push(CounterInner::zero()),
    {
        InstrumentedOpenMlsRustCrypto {
            crypto: InstrumentedCrypto::default(table),
            key_store: MemoryStorage::default(),
        }
    }

    /// The handle of the counters that crypto calls are recorded in.
    pub fn counter_handle(&self) -> (handle: CounterHandle)
        ensures
            handle == self.instrumented().handle(),
    {
        self.crypto.counter_handle()
    }

    /// A default provider without counters. Neither the wrapped crypto provider
    /// nor the key store is carried over to it.
    pub fn into_uninstrumented<P: Default>(self) -> (plain: P)
        ensures
            call_ensures(P::default, (), plain),
    {
        P::default()
    }

    /// The key store.
    pub fn storage(&self) -> (store: &MemoryStorage)
        ensures
            *store == self.store(),
    {
        &self.key_store
    }

    /// The provider of crypto primitives, which records each call.
    pub fn crypto(&self) -> (crypto: &InstrumentedCrypto<C>)
        ensures
            *crypto == self.instrumented(),
    {
        &self.crypto
    }

    /// The provider of randomness, which is the one of crypto primitives.
    pub fn rand(&self) -> (rand: &InstrumentedCrypto<C>)
        ensures
            *rand == self.instrumented(),
    {
        &self.crypto
    }
}

} // verus!
