//! The types of the crypto provider interface that pass through the wrapper. They
//! are carried unopened.

use openmls_memory_storage::MemoryStorage;
use openmls_traits::types::{
    AeadType, Ciphersuite, CryptoError, ExporterSecret, HashType, HpkeCiphertext, HpkeConfig,
    HpkeKeyPair, SignatureScheme,
};
use tls_codec::SecretVLBytes;
use vstd::prelude::*;

verus! {

/// `openmls_traits::types::AeadType`, an AEAD algorithm.
#[verifier::external_type_specification]
#[verifier::external_body]
pub struct ExAeadType(AeadType);

/// `openmls_traits::types::Ciphersuite`, an MLS ciphersuite.
#[verifier::external_type_specification]
#[verifier::external_body]
pub struct ExCiphersuite(Ciphersuite);

/// `openmls_traits::types::CryptoError`, the error of a crypto provider.
#[verifier::external_type_specification]
#[verifier::external_body]
pub struct ExCryptoError(CryptoError);

/// `openmls_traits::types::ExporterSecret`, a secret exported from HPKE.
#[verifier::external_type_specification]
#[verifier::external_body]
pub struct ExExporterSecret(ExporterSecret);

/// `openmls_traits::types::HashType`, a hash function.
#[verifier::external_type_specification]
#[verifier::external_body]
pub struct ExHashType(HashType);

/// `openmls_traits::types::HpkeCiphertext`, a KEM output with a ciphertext.
#[verifier::external_type_specification]
#[verifier::external_body]
pub struct ExHpkeCiphertext(HpkeCiphertext);

/// `openmls_traits::types::HpkeConfig`, the algorithms of an HPKE instance.
#[verifier::external_type_specification]
#[verifier::external_body]
pub struct ExHpkeConfig(HpkeConfig);

/// `openmls_traits::types::HpkeKeyPair`, an HPKE key pair.
#[verifier::external_type_specification]
#[verifier::external_body]
pub struct ExHpkeKeyPair(HpkeKeyPair);

/// `openmls_traits::types::SignatureScheme`, a signature algorithm.
#[verifier::external_type_specification]
#[verifier::external_body]
pub struct ExSignatureScheme(SignatureScheme);

/// `tls_codec::SecretVLBytes`, a byte string that is wiped when it is dropped.
#[verifier::external_type_specification]
#[verifier::external_body]
pub struct ExSecretVLBytes(SecretVLBytes);

/// `openmls_memory_storage::MemoryStorage`, a key store in memory.
#[verifier::external_type_specification]
#[verifier::external_body]
pub struct ExMemoryStorage(MemoryStorage);

} // verus!
