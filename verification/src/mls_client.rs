//! Credential and key-package management.
//!
//! A client owns one signing identity and issues key packages: signed,
//! publishable tokens advertising its identity, its encapsulation key
//! and its cipher configuration.  Possession of a valid key package is
//! the precondition for being added to a group, and the matching
//! private material kept here is what lets the client consume a
//! welcome addressed to a package it issued.

use vstd::prelude::*;
use vstd::string::StringSliceAdditionalSpecFns;
use vstd::utf8::encode_utf8;

use crate::codec::{length_prefixed, push_field, push_u64_be, u64_be};
use crate::crypto::{ed25519_pk_of, ed25519_sig_of, ed25519_verifies, kem_opened, kem_pk_of, CryptoProvider};
use crate::errors::EngineError;
use crate::session::{copy_strings, names_of, GroupSession, Welcome};

verus! {

/// The cipher configuration every package of this engine advertises:
/// X25519 key encapsulation, AES-256-GCM payload protection and
/// Ed25519 signatures.
pub const CIPHER_SUITE: u16 = 2;

/// Length of a key-package reference (its server-unpredictable nonce).
pub const KEY_PACKAGE_REF_LEN: usize = 16;

/// A signed, publishable token advertising that its issuer can join a
/// group: identity, encapsulation key, cipher configuration, expiry,
/// and a fresh nonce that doubles as the package's unique reference.
pub struct KeyPackage {
    pub identity: String,
    pub signature_key: Vec<u8>,
    pub init_key: Vec<u8>,
    pub cipher_suite: u16,
    pub not_after: u64,
    pub nonce: Vec<u8>,
    pub signature: Vec<u8>,
}

/// Mathematical image of a key package.
#[verifier::ext_equal]
pub struct KeyPackageView {
    pub identity: Seq<char>,
    pub signature_key: Seq<u8>,
    pub init_key: Seq<u8>,
    pub cipher_suite: u16,
    pub not_after: u64,
    pub nonce: Seq<u8>,
    pub signature: Seq<u8>,
}

impl View for KeyPackage {
    type V = KeyPackageView;

    open spec fn view(&self) -> KeyPackageView {
        KeyPackageView {
            identity: self.identity@,
            signature_key: self.signature_key@,
            init_key: self.init_key@,
            cipher_suite: self.cipher_suite,
            not_after: self.not_after,
            nonce: self.nonce@,
            signature: self.signature@,
        }
    }
}

/// The bytes a key package's signature covers: every field but the
/// signature, each variable-length field length-prefixed.
pub open spec fn kp_tbs(v: KeyPackageView) -> Seq<u8> {
    length_prefixed(encode_utf8(v.identity)) + length_prefixed(v.signature_key)
        + length_prefixed(v.init_key) + u64_be(v.cipher_suite as u64) + u64_be(v.not_after)
        + length_prefixed(v.nonce)
}

/// The wire encoding of a key package: its to-be-signed bytes
/// followed by its length-prefixed signature.
pub open spec fn kp_wire(v: KeyPackageView) -> Seq<u8> {
    kp_tbs(v) + length_prefixed(v.signature)
}

/// Whether a key package carries a valid signature by the advertised
/// signature key over its own contents.
pub open spec fn kp_signed(v: KeyPackageView) -> bool {
    ed25519_verifies(v.signature_key, kp_tbs(v), v.signature)
}

impl KeyPackage {
    /// The to-be-signed encoding of this package.
    pub fn tbs_bytes(&self) -> (r: Vec<u8>)
        ensures
            r@ == kp_tbs(self@),
    {
        let mut out: Vec<u8> = Vec::new();
        push_field(&mut out, self.identity.as_str().as_bytes());
        push_field(&mut out, self.signature_key.as_slice());
        push_field(&mut out, self.init_key.as_slice());
        push_u64_be(&mut out, self.cipher_suite as u64);
        push_u64_be(&mut out, self.not_after);
        push_field(&mut out, self.nonce.as_slice());
        assert(out@ =~= kp_tbs(self@));
        out
    }

    /// A fieldwise copy.
    pub fn duplicate(&self) -> (r: KeyPackage)
        ensures
            r@ == self@,
    {
        let r = KeyPackage {
            identity: self.identity.clone(),
            signature_key: copy_bytes(&self.signature_key),
            init_key: copy_bytes(&self.init_key),
            cipher_suite: self.cipher_suite,
            not_after: self.not_after,
            nonce: copy_bytes(&self.nonce),
            signature: copy_bytes(&self.signature),
        };
        assert(r@ == self@);
        r
    }

    /// The wire encoding of this package.
    pub fn encode_bytes(&self) -> (r: Vec<u8>)
        ensures
            r@ == kp_wire(self@),
    {
        let mut out = self.tbs_bytes();
        push_field(&mut out, self.signature.as_slice());
        assert(out@ =~= kp_wire(self@));
        out
    }

    /// Whether the package's signature verifies under its own
    /// advertised signature key.
    pub fn verify(&self, provider: &CryptoProvider) -> (r: bool)
        ensures
            r == kp_signed(self@),
    {
        let tbs = self.tbs_bytes();
        provider.verify_ed25519(
            self.signature_key.as_slice(),
            tbs.as_slice(),
            self.signature.as_slice(),
        )
    }
}

/// An elementwise copy of a byte vector.
pub fn copy_bytes(v: &Vec<u8>) -> (r: Vec<u8>)
    ensures
        r@ == v@,
{
    let mut r: Vec<u8> = Vec::new();
    let mut i: usize = 0;
    while i < v.len()
        invariant
            i <= v.len(),
            r@ == v@.take(i as int),
        decreases v.len() - i,
    {
        r.push(v[i]);
        i = i + 1;
        assert(r@ =~= v@.take(i as int));
    }
    assert(v@.take(v@.len() as int) =~= v@);
    r
}

/// The private material kept for one issued key package: the package's
/// reference and the encapsulation private key a welcome addressed to
/// it is opened with.
pub struct IssuedKeyPackage {
    pub reference: Vec<u8>,
    pub kem_sk: Vec<u8>,
}

/// The encapsulation private key stored for the first issued package
/// whose reference is `r`, if any.
pub open spec fn find_issued(entries: Seq<IssuedKeyPackage>, r: Seq<u8>) -> Option<Seq<u8>>
    decreases entries.len(),
{
    if entries.len() == 0 {
        None
    } else if entries[0].reference@ == r {
        Some(entries[0].kem_sk@)
    } else {
        find_issued(entries.drop_first(), r)
    }
}

/// The references of a list of issued packages.
pub open spec fn issued_refs(entries: Seq<IssuedKeyPackage>) -> Seq<Seq<u8>> {
    entries.map_values(|e: IssuedKeyPackage| e.reference@)
}

/// A reference is found among issued packages exactly when it was
/// recorded for one of them.
pub proof fn lemma_find_issued_none_iff(entries: Seq<IssuedKeyPackage>, r: Seq<u8>)
    ensures
        find_issued(entries, r) is None <==> !issued_refs(entries).contains(r),
    decreases entries.len(),
{
    if entries.len() == 0 {
        assert(issued_refs(entries).len() == 0);
    } else {
        lemma_find_issued_none_iff(entries.drop_first(), r);
        assert(issued_refs(entries.drop_first()) =~= issued_refs(entries).drop_first());
        if entries[0].reference@ == r {
            assert(issued_refs(entries)[0] == r);
        } else {
            assert(issued_refs(entries).contains(r) <==> issued_refs(
                entries,
            ).drop_first().contains(r)) by {
                if issued_refs(entries).contains(r) {
                    let i = choose|i: int|
                        0 <= i < issued_refs(entries).len() && issued_refs(entries)[i] == r;
                    assert(i != 0);
                    assert(issued_refs(entries).drop_first()[i - 1] == r);
                }
                if issued_refs(entries).drop_first().contains(r) {
                    let i = choose|i: int|
                        0 <= i < issued_refs(entries).drop_first().len() && issued_refs(
                            entries,
                        ).drop_first()[i] == r;
                    assert(issued_refs(entries)[i + 1] == r);
                }
            }
        }
    }
}

/// The stored private key for the first issued entry from index `i`
/// on whose reference is `r`.
fn find_issued_from<'a>(entries: &'a Vec<IssuedKeyPackage>, i: usize, r: &Vec<u8>) -> (res: Option<
    &'a Vec<u8>,
>)
    requires
        i <= entries@.len(),
    ensures
        match res {
            Some(sk) => find_issued(entries@.skip(i as int), r@) == Some(sk@),
            None => find_issued(entries@.skip(i as int), r@) is None,
        },
    decreases entries@.len() - i,
{
    if i == entries.len() {
        assert(entries@.skip(i as int) =~= Seq::<IssuedKeyPackage>::empty());
        None
    } else {
        assert(entries@.skip(i as int)[0] == entries@[i as int]);
        if bytes_eq(&entries[i].reference, r) {
            Some(&entries[i].kem_sk)
        } else {
            let res = find_issued_from(entries, i + 1, r);
            assert(entries@.skip(i as int).drop_first() =~= entries@.skip(i + 1));
            res
        }
    }
}

/// Whether two byte vectors hold the same bytes.
pub fn bytes_eq(a: &Vec<u8>, b: &Vec<u8>) -> (r: bool)
    ensures
        r == (a@ == b@),
{
    if a.len() != b.len() {
        proof {
            if a@ == b@ {
                assert(a@.len() == b@.len());
            }
        }
        return false;
    }
    let mut i: usize = 0;
    while i < a.len()
        invariant
            i <= a.len(),
            a@.len() == b@.len(),
            forall|j: int| 0 <= j < i ==> a@[j] == b@[j],
        decreases a.len() - i,
    {
        if a[i] != b[i] {
            return false;
        }
        i = i + 1;
    }
    assert(a@ =~= b@);
    true
}

/// The client's one signing identity, its current key package, and the
/// private records of every package it has issued.
pub struct MlsClient {
    pub credential: String,
    pub signing_sk: Vec<u8>,
    pub signature_key: Vec<u8>,
    pub key_package: KeyPackage,
    pub issued: Vec<IssuedKeyPackage>,
}

impl MlsClient {
    /// Whether the stored key material is a matching Ed25519 pair.
    pub open spec fn key_material_ok(self) -> bool {
        &&& self.signing_sk@.len() == 32
        &&& self.signature_key@ == ed25519_pk_of(self.signing_sk@)
    }

    /// What a key package freshly issued by this client looks like.
    pub open spec fn freshly_issued(
        self,
        kp: KeyPackageView,
        entry: IssuedKeyPackage,
        not_after: u64,
    ) -> bool {
        &&& kp.identity == self.credential@
        &&& kp.signature_key == self.signature_key@
        &&& kp.cipher_suite == CIPHER_SUITE
        &&& kp.not_after == not_after
        &&& kp.nonce.len() == KEY_PACKAGE_REF_LEN as int
        &&& kp.signature == ed25519_sig_of(self.signing_sk@, kp_tbs(kp))
        &&& (self.key_material_ok() ==> kp_signed(kp))
        &&& entry.reference@ == kp.nonce
        &&& kp.init_key == kem_pk_of(entry.kem_sk@)
    }

    /// Create the identity for `username`: generate the signing pair
    /// and issue the first key package, valid until `not_after`.
    ///
    /// Fails only when the cryptographic provider fails.
    pub fn new(username: &str, provider: &CryptoProvider, not_after: u64) -> (r: Result<
        MlsClient,
        EngineError,
    >)
        ensures
            r matches Ok(c) ==> {
                &&& c.key_material_ok()
                &&& c.credential@ == username@
                &&& c.issued@.len() == 1
                &&& c.freshly_issued(c.key_package@, c.issued@[0], not_after)
                &&& kp_signed(c.key_package@)
            },
            r matches Err(e) ==> e == EngineError::CryptoProvider,
    {
        let (sk, pk) = match provider.generate_ed25519() {
            Some(kp) => kp,
            None => {
                return Err(EngineError::CryptoProvider);
            },
        };
        let mut client = MlsClient {
            credential: username.to_owned(),
            signing_sk: sk,
            signature_key: pk,
            key_package: KeyPackage {
                identity: username.to_owned(),
                signature_key: Vec::new(),
                init_key: Vec::new(),
                cipher_suite: CIPHER_SUITE,
                not_after: 0,
                nonce: Vec::new(),
                signature: Vec::new(),
            },
            issued: Vec::new(),
        };
        match client.issue_key_package(provider, not_after) {
            Ok(_) => Ok(client),
            Err(e) => Err(e),
        }
    }

    /// The public identity this client signs with.
    pub fn get_identity(&self) -> (r: &String)
        ensures
            r@ == self.credential@,
    {
        &self.credential
    }

    /// The client's current key package.
    pub fn get_key_package(&self) -> (r: &KeyPackage)
        ensures
            r@ == self.key_package@,
    {
        &self.key_package
    }

    /// Issue a fresh key package valid until `not_after`, record its
    /// private material, and make it the current package.
    ///
    /// Repeated calls are distinguishable: each package carries a
    /// fresh random nonce.  Fails only when the cryptographic provider
    /// fails, and leaves the client unchanged then.
    pub fn issue_key_package(&mut self, provider: &CryptoProvider, not_after: u64) -> (r: Result<
        (),
        EngineError,
    >)
        ensures
            r matches Ok(()) ==> {
                &&& final(self).issued@ == old(self).issued@ + seq![
                    final(self).issued@.last(),
                ]
                &&& old(self).freshly_issued(
                    final(self).key_package@,
                    final(self).issued@.last(),
                    not_after,
                )
            },
            r matches Err(e) ==> e == EngineError::CryptoProvider && *final(self) == *old(self),
            old(self).signing_sk@.len() != 32 ==> r is Err,
            final(self).credential@ == old(self).credential@,
            final(self).signing_sk@ == old(self).signing_sk@,
            final(self).signature_key@ == old(self).signature_key@,
    {
        if self.signing_sk.len() != 32 {
            return Err(EngineError::CryptoProvider);
        }
        let nonce = match provider.random_bytes(KEY_PACKAGE_REF_LEN) {
            Some(v) => v,
            None => {
                return Err(EngineError::CryptoProvider);
            },
        };
        let ikm = match provider.random_bytes(32) {
            Some(v) => v,
            None => {
                return Err(EngineError::CryptoProvider);
            },
        };
        let (kem_sk, kem_pk) = match provider.kem_derive_keypair(ikm.as_slice()) {
            Some(kp) => kp,
            None => {
                return Err(EngineError::CryptoProvider);
            },
        };
        let mut kp = KeyPackage {
            identity: self.credential.clone(),
            signature_key: copy_bytes(&self.signature_key),
            init_key: kem_pk,
            cipher_suite: CIPHER_SUITE,
            not_after,
            nonce,
            signature: Vec::new(),
        };
        let tbs = kp.tbs_bytes();
        let signature = provider.sign_ed25519(self.signing_sk.as_slice(), tbs.as_slice());
        kp.signature = signature;
        assert(kp_tbs(kp@) == tbs@);
        let reference = copy_bytes(&kp.nonce);
        self.key_package = kp;
        self.issued.push(IssuedKeyPackage { reference, kem_sk });
        Ok(())
    }

    /// Create a new group with this client as its only member, at
    /// epoch 0.  Publication to the delivery service is the caller's
    /// explicit follow-up; nothing here touches the network.
    pub fn create_group(&self, provider: &CryptoProvider, group_id: &str) -> (r: Result<
        GroupSession,
        EngineError,
    >)
        ensures
            r matches Ok(s) ==> {
                &&& s.wf()
                &&& s.active
                &&& s.group_id@ == group_id@
                &&& s.epoch == 0
                &&& names_of(s.roster@) == seq![self.credential@]
                &&& s.message_seq == 0
                &&& s.transcript@.len() == 0
                &&& s.pending@.len() == 0
            },
            r matches Err(e) ==> e == EngineError::CryptoProvider,
    {
        GroupSession::create(provider, group_id, &self.credential)
    }

    /// Consume a welcome and materialize the session it bootstraps.
    ///
    /// A welcome whose target reference matches no key package this
    /// client issued is rejected as foreign, always.  One whose sealed
    /// secret does not open under the recorded private key, or opens
    /// to anything but a 32-byte secret, is rejected as unparsable.
    /// Otherwise the session starts at the welcome's epoch with the
    /// welcome's roster snapshot.  Duplicate-join protection is the
    /// registry's insertion guard; nothing here touches the registry.
    pub fn join_group(&self, provider: &CryptoProvider, welcome: &Welcome) -> (r: Result<
        GroupSession,
        EngineError,
    >)
        ensures
            find_issued(self.issued@, welcome.target_ref@) is None <==> r == Err::<
                GroupSession,
                EngineError,
            >(EngineError::ForeignWelcome),
            r matches Ok(s) ==> {
                &&& find_issued(self.issued@, welcome.target_ref@) matches Some(sk)
                    && kem_opened(sk, welcome.kem_output@, welcome.sealed_secret@) == Some(
                    s.secret@,
                )
                &&& s.wf()
                &&& s.active
                &&& s.group_id@ == welcome.group_id@
                &&& s.epoch == welcome.epoch
                &&& names_of(s.roster@) == names_of(welcome.roster@)
                &&& s.message_seq == 0
                &&& s.transcript@.len() == 0
                &&& s.pending@.len() == 0
            },
            (find_issued(self.issued@, welcome.target_ref@) matches Some(sk) && (kem_opened(
                sk,
                welcome.kem_output@,
                welcome.sealed_secret@,
            ) matches Some(p) && p.len() == 32)) ==> r is Ok,
            (find_issued(self.issued@, welcome.target_ref@) matches Some(sk) && !(kem_opened(
                sk,
                welcome.kem_output@,
                welcome.sealed_secret@,
            ) matches Some(p) && p.len() == 32)) ==> r == Err::<GroupSession, EngineError>(
                EngineError::WelcomeParse,
            ),
    {
        assert(self.issued@.skip(0) =~= self.issued@);
        let sk = match find_issued_from(&self.issued, 0, &welcome.target_ref) {
            Some(sk) => sk,
            None => {
                return Err(EngineError::ForeignWelcome);
            },
        };
        let secret = match provider.kem_open(
            sk.as_slice(),
            welcome.kem_output.as_slice(),
            welcome.sealed_secret.as_slice(),
        ) {
            Some(p) => p,
            None => {
                return Err(EngineError::WelcomeParse);
            },
        };
        if secret.len() != 32 {
            return Err(EngineError::WelcomeParse);
        }
        Ok(
            GroupSession {
                group_id: welcome.group_id.clone(),
                epoch: welcome.epoch,
                roster: copy_strings(&welcome.roster),
                secret,
                message_seq: 0,
                transcript: Vec::new(),
                pending: Vec::new(),
                consumed: Vec::new(),
                last_commit_id: None,
                active: true,
            },
        )
    }
}

/// A welcome targeting a reference that is not among a client's issued
/// references finds no private material: processing it fails as
/// foreign, never any other way.
pub proof fn lemma_foreign_welcome_rejected(c: MlsClient, w: Welcome)
    requires
        !issued_refs(c.issued@).contains(w.target_ref@),
    ensures
        find_issued(c.issued@, w.target_ref@) is None,
{
    lemma_find_issued_none_iff(c.issued@, w.target_ref@);
}

} // verus!
