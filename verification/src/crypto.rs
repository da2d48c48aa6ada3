//! Boundary to the external cryptographic provider.
//!
//! The engine never implements a primitive itself: key generation,
//! signing, AEAD, KEM encapsulation and key derivation are supplied by
//! `openmls_rust_crypto`'s default provider.  Each call goes through a
//! trusted wrapper here whose contract states, over named results,
//! exactly what the provider's documentation promises; everything that
//! sequences these calls is verified against those contracts.

use vstd::prelude::*;

use openmls_rust_crypto::OpenMlsRustCrypto;
use openmls_traits::crypto::OpenMlsCrypto;
use openmls_traits::random::OpenMlsRand;
use openmls_traits::types::AeadType;
use openmls_traits::types::HashType;
use openmls_traits::types::HpkeAeadType;
use openmls_traits::types::HpkeCiphertext;
use openmls_traits::types::HpkeConfig;
use openmls_traits::types::HpkeKdfType;
use openmls_traits::types::HpkeKemType;
use openmls_traits::types::SignatureScheme;
use openmls_traits::OpenMlsProvider;

verus! {

#[verifier::external_type_specification]
#[verifier::external_body]
pub struct ExOpenMlsRustCrypto(OpenMlsRustCrypto);

/// The Ed25519 public key belonging to a 32-byte private key.
pub uninterp spec fn ed25519_pk_of(sk: Seq<u8>) -> Seq<u8>;

/// The (deterministic) Ed25519 signature over `data` under `sk`.
pub uninterp spec fn ed25519_sig_of(sk: Seq<u8>, data: Seq<u8>) -> Seq<u8>;

/// Whether strict Ed25519 verification accepts `sig` on `data` under `pk`.
pub uninterp spec fn ed25519_verifies(pk: Seq<u8>, data: Seq<u8>, sig: Seq<u8>) -> bool;

/// The AES-256-GCM sealing of `pt` under `key` and `nonce`.
pub uninterp spec fn aead_sealed(key: Seq<u8>, nonce: Seq<u8>, pt: Seq<u8>) -> Seq<u8>;

/// What AES-256-GCM opening of `ct` under `key` and `nonce` returns.
pub uninterp spec fn aead_opened(key: Seq<u8>, nonce: Seq<u8>, ct: Seq<u8>) -> Option<Seq<u8>>;

/// The X25519 KEM public key belonging to a private key.
pub uninterp spec fn kem_pk_of(sk: Seq<u8>) -> Seq<u8>;

/// What HPKE single-shot opening under `sk` returns for an
/// encapsulation and ciphertext.
pub uninterp spec fn kem_opened(sk: Seq<u8>, kem_output: Seq<u8>, ct: Seq<u8>) -> Option<Seq<u8>>;

/// The 32-byte HKDF-SHA256 expansion of `prk` with `info`.
pub uninterp spec fn kdf32_of(prk: Seq<u8>, info: Seq<u8>) -> Seq<u8>;

/// The largest plaintext AES-GCM seals (the GCM length bound of the
/// underlying cipher implementation).
pub const AEAD_PLAINTEXT_MAX: u64 = 68719476736;

/// Handle on the external cryptographic provider.
pub struct CryptoProvider {
    provider: OpenMlsRustCrypto,
}

impl CryptoProvider {
    /// Relies on `OpenMlsRustCrypto::default` to set up the provider.
    #[verifier::external_body]
    pub fn new() -> CryptoProvider {
        CryptoProvider { provider: OpenMlsRustCrypto::default() }
    }

    /// The underlying provider, for collaborators outside the engine.
    #[verifier::external_body]
    pub fn provider(&self) -> &OpenMlsRustCrypto {
        &self.provider
    }

    /// Relies on `OpenMlsRand::random_vec`: fresh random bytes of the
    /// requested length.  Nothing is promised of their value.
    #[verifier::external_body]
    pub(crate) fn random_bytes(&self, len: usize) -> (r: Option<Vec<u8>>)
        ensures
            r matches Some(v) ==> v@.len() == len,
    {
        self.provider.rand().random_vec(len).ok()
    }

    /// Relies on `OpenMlsCrypto::signature_key_gen` with Ed25519: a
    /// fresh pair of a 32-byte private key and its public key.
    #[verifier::external_body]
    pub(crate) fn generate_ed25519(&self) -> (r: Option<(Vec<u8>, Vec<u8>)>)
        ensures
            r matches Some(kp) ==> kp.0@.len() == 32 && kp.1@ == ed25519_pk_of(kp.0@),
    {
        self.provider.crypto().signature_key_gen(SignatureScheme::ED25519).ok()
    }

    /// Relies on `OpenMlsCrypto::sign` with Ed25519: deterministic
    /// signing that never fails for a 32-byte key, producing a
    /// signature that strict verification under the paired public key
    /// accepts.
    #[verifier::external_body]
    pub(crate) fn sign_ed25519(&self, sk: &[u8], data: &[u8]) -> (r: Vec<u8>)
        requires
            sk@.len() == 32,
        ensures
            r@ == ed25519_sig_of(sk@, data@),
            ed25519_verifies(ed25519_pk_of(sk@), data@, r@),
    {
        self.provider.crypto().sign(SignatureScheme::ED25519, data, sk).unwrap()
    }

    /// Relies on `OpenMlsCrypto::verify_signature` with Ed25519: a
    /// deterministic check of `sig` on `data` under `pk`.
    #[verifier::external_body]
    pub(crate) fn verify_ed25519(&self, pk: &[u8], data: &[u8], sig: &[u8]) -> (r: bool)
        ensures
            r == ed25519_verifies(pk@, data@, sig@),
    {
        self.provider.crypto().verify_signature(SignatureScheme::ED25519, data, pk, sig).is_ok()
    }

    /// Relies on `OpenMlsCrypto::aead_encrypt` with AES-256-GCM:
    /// deterministic sealing whose output opens back to the plaintext
    /// under the same key and nonce.  Sealing succeeds for every
    /// plaintext within the cipher's length bound.
    #[verifier::external_body]
    pub(crate) fn aead_seal(&self, key: &[u8], nonce: &[u8], pt: &[u8]) -> (r: Option<Vec<u8>>)
        requires
            key@.len() == 32,
            nonce@.len() == 12,
        ensures
            r matches Some(ct) ==> ct@ == aead_sealed(key@, nonce@, pt@)
                && aead_opened(key@, nonce@, ct@) == Some(pt@),
            pt@.len() <= AEAD_PLAINTEXT_MAX ==> r is Some,
    {
        self.provider.crypto().aead_encrypt(AeadType::Aes256Gcm, key, pt, nonce, &[]).ok()
    }

    /// Relies on `OpenMlsCrypto::aead_decrypt` with AES-256-GCM: a
    /// deterministic opening of `ct` under `key` and `nonce`.
    #[verifier::external_body]
    pub(crate) fn aead_open(&self, key: &[u8], nonce: &[u8], ct: &[u8]) -> (r: Option<Vec<u8>>)
        requires
            key@.len() == 32,
            nonce@.len() == 12,
        ensures
            r matches Some(p) ==> aead_opened(key@, nonce@, ct@) == Some(p@),
            r is None ==> aead_opened(key@, nonce@, ct@) is None,
    {
        self.provider.crypto().aead_decrypt(AeadType::Aes256Gcm, key, ct, nonce, &[]).ok()
    }

    /// Relies on `OpenMlsCrypto::derive_hpke_keypair` with
    /// DHKEM-X25519: a key pair derived from the input key material,
    /// whose public half is paired with its private half.
    #[verifier::external_body]
    pub(crate) fn kem_derive_keypair(&self, ikm: &[u8]) -> (r: Option<(Vec<u8>, Vec<u8>)>)
        ensures
            r matches Some(kp) ==> kp.1@ == kem_pk_of(kp.0@),
    {
        let cfg = HpkeConfig(HpkeKemType::DhKem25519, HpkeKdfType::HkdfSha256, HpkeAeadType::AesGcm256);
        let kp = self.provider.crypto().derive_hpke_keypair(cfg, ikm).ok()?;
        Some((kp.private.to_vec(), kp.public))
    }

    /// Relies on `OpenMlsCrypto::hpke_seal` with DHKEM-X25519: a
    /// randomized encapsulation that any private key paired with `pk`
    /// opens back to the plaintext.
    #[verifier::external_body]
    pub(crate) fn kem_seal(&self, pk: &[u8], pt: &[u8]) -> (r: Option<(Vec<u8>, Vec<u8>)>)
        ensures
            r matches Some(out) ==> forall|sk: Seq<u8>|
                kem_pk_of(sk) == pk@ ==> kem_opened(sk, out.0@, out.1@) == Some(pt@),
    {
        let cfg = HpkeConfig(HpkeKemType::DhKem25519, HpkeKdfType::HkdfSha256, HpkeAeadType::AesGcm256);
        let ct = self.provider.crypto().hpke_seal(cfg, pk, &[], &[], pt).ok()?;
        Some((ct.kem_output.as_slice().to_vec(), ct.ciphertext.as_slice().to_vec()))
    }

    /// Relies on `OpenMlsCrypto::hpke_open` with DHKEM-X25519: a
    /// deterministic opening of an encapsulation under `sk`.
    #[verifier::external_body]
    pub(crate) fn kem_open(&self, sk: &[u8], kem_output: &[u8], ct: &[u8]) -> (r: Option<Vec<u8>>)
        ensures
            r matches Some(p) ==> kem_opened(sk@, kem_output@, ct@) == Some(p@),
            r is None ==> kem_opened(sk@, kem_output@, ct@) is None,
    {
        let cfg = HpkeConfig(HpkeKemType::DhKem25519, HpkeKdfType::HkdfSha256, HpkeAeadType::AesGcm256);
        let input = HpkeCiphertext {
            kem_output: kem_output.to_vec().into(),
            ciphertext: ct.to_vec().into(),
        };
        self.provider.crypto().hpke_open(cfg, &input, sk, &[], &[]).ok()
    }

    /// Relies on `OpenMlsCrypto::hkdf_expand` with SHA-256: a
    /// deterministic 32-byte expansion, which succeeds whenever the
    /// pseudorandom key is 32 bytes long.
    #[verifier::external_body]
    pub(crate) fn kdf_expand32(&self, prk: &[u8], info: &[u8]) -> (r: Option<Vec<u8>>)
        ensures
            r matches Some(v) ==> v@ == kdf32_of(prk@, info@) && v@.len() == 32,
            prk@.len() == 32 ==> r is Some,
    {
        let okm = self.provider.crypto().hkdf_expand(HashType::Sha2_256, prk, info, 32).ok()?;
        Some(okm.as_slice().to_vec())
    }
}

} // verus!
