//! Experiment-only crypto instrumentation wrappers.

pub mod counters;
pub mod crypto;
pub mod laws;
pub mod outside;
pub mod provider;
pub mod table;

pub use counters::PrimitiveCounters;
pub use crypto::InstrumentedCrypto;
pub use provider::InstrumentedOpenMlsRustCrypto;
pub use table::{CounterHandle, CounterTable};
