//! The group session state machine.
//!
//! One session per group: an epoch counter, the member roster, the
//! epoch secret, pending Add proposals and the local transcript.
//! Epoch and roster only ever grow, each by exactly one accepted
//! commit; the epoch secret of epoch N+1 is derived from the secret of
//! epoch N and the commit, and handed to newly added members inside a
//! welcome sealed to their key package's encapsulation key.

use vstd::prelude::*;

use crate::codec::{push_u64_be, u64_be};
use crate::crypto::{
    aead_opened, aead_sealed, kdf32_of, kem_opened, kem_pk_of, CryptoProvider, AEAD_PLAINTEXT_MAX,
};
use crate::errors::EngineError;
use crate::mls_client::{bytes_eq, copy_bytes, kp_signed, KeyPackage, KeyPackageView};

verus! {

/// One entry of a session's transcript: a message as received or
/// locally sent.  Never mutated after creation; transcript order is
/// receipt order.
pub struct Message {
    pub id: String,
    pub sender: String,
    pub content: String,
    pub timestamp: u64,
    pub group_id: String,
}

/// An application ciphertext, bound to the epoch and message sequence
/// number it was produced under.
pub struct CipherMessage {
    pub epoch: u64,
    pub seq: u64,
    pub body: Vec<u8>,
}

/// The artifact that finalizes the pending Add proposals and advances
/// the epoch by one.
pub struct Commit {
    pub group_id: String,
    pub new_epoch: u64,
    pub adds: Vec<KeyPackage>,
    pub commit_id: Vec<u8>,
}

/// The artifact that lets one newly added member bootstrap the epoch
/// secret: the new secret sealed to the member's key package, plus a
/// roster snapshot at the issuance epoch.
pub struct Welcome {
    pub group_id: String,
    pub epoch: u64,
    pub target_ref: Vec<u8>,
    pub kem_output: Vec<u8>,
    pub sealed_secret: Vec<u8>,
    pub roster: Vec<String>,
}

/// What a commit produces: the commit itself and one welcome per
/// newly added member.
pub struct CommitOutput {
    pub commit: Commit,
    pub welcomes: Vec<Welcome>,
}

/// The names held in a roster.
pub open spec fn names_of(r: Seq<String>) -> Seq<Seq<char>> {
    r.map_values(|s: String| s@)
}

/// The identities advertised by a list of key packages.
pub open spec fn kp_names(p: Seq<KeyPackage>) -> Seq<Seq<char>> {
    p.map_values(|k: KeyPackage| k@.identity)
}

/// The references (nonces) of a list of key packages.
pub open spec fn kp_refs(p: Seq<KeyPackage>) -> Seq<Seq<u8>> {
    p.map_values(|k: KeyPackage| k@.nonce)
}

/// The mathematical images of a list of key packages.
pub open spec fn kp_views(p: Seq<KeyPackage>) -> Seq<KeyPackageView> {
    p.map_values(|k: KeyPackage| k@)
}

/// The byte sequences held in a list of byte vectors.
pub open spec fn bytes_views(c: Seq<Vec<u8>>) -> Seq<Seq<u8>> {
    c.map_values(|v: Vec<u8>| v@)
}

/// The AEAD nonce used for one message: four zero bytes and the
/// big-endian sequence number.
pub open spec fn nonce12(seq: u64) -> Seq<u8> {
    seq![0u8, 0u8, 0u8, 0u8] + u64_be(seq)
}

/// Build the AEAD nonce for one message.
pub fn nonce12_bytes(seq: u64) -> (r: Vec<u8>)
    ensures
        r@ == nonce12(seq),
        r@.len() == 12,
{
    let mut out: Vec<u8> = Vec::new();
    out.push(0u8);
    out.push(0u8);
    out.push(0u8);
    out.push(0u8);
    push_u64_be(&mut out, seq);
    assert(out@ =~= nonce12(seq));
    out
}

/// A base roster extended by those of the added names not yet present,
/// in order, without introducing duplicates.
pub open spec fn extend_unique(base: Seq<Seq<char>>, adds: Seq<Seq<char>>) -> Seq<Seq<char>>
    decreases adds.len(),
{
    if adds.len() == 0 {
        base
    } else {
        let rest = extend_unique(base, adds.drop_last());
        if rest.contains(adds.last()) {
            rest
        } else {
            rest.push(adds.last())
        }
    }
}

/// An elementwise copy of a string vector.
pub fn copy_strings(v: &Vec<String>) -> (r: Vec<String>)
    ensures
        r@ == v@,
{
    let mut r: Vec<String> = Vec::new();
    let mut i: usize = 0;
    while i < v.len()
        invariant
            i <= v.len(),
            r@ == v@.take(i as int),
        decreases v.len() - i,
    {
        r.push(v[i].clone());
        i = i + 1;
        assert(r@ =~= v@.take(i as int));
    }
    assert(v@.take(v@.len() as int) =~= v@);
    r
}

/// Whether one of the strings reads `s`.
pub fn contains_name(v: &Vec<String>, s: &String) -> (r: bool)
    ensures
        r == names_of(v@).contains(s@),
{
    let mut i: usize = 0;
    while i < v.len()
        invariant
            i <= v.len(),
            forall|j: int| 0 <= j < i ==> names_of(v@)[j] != s@,
        decreases v.len() - i,
    {
        if v[i].eq(s) {
            assert(names_of(v@)[i as int] == s@);
            return true;
        }
        i = i + 1;
    }
    false
}

/// Whether one of the byte vectors holds `b`.
pub fn contains_bytes(v: &Vec<Vec<u8>>, b: &Vec<u8>) -> (r: bool)
    ensures
        r == bytes_views(v@).contains(b@),
{
    let mut i: usize = 0;
    while i < v.len()
        invariant
            i <= v.len(),
            forall|j: int| 0 <= j < i ==> bytes_views(v@)[j] != b@,
        decreases v.len() - i,
    {
        if bytes_eq(&v[i], b) {
            assert(bytes_views(v@)[i as int] == b@);
            return true;
        }
        i = i + 1;
    }
    false
}

/// A group session.  `active == false` is the terminated state, which
/// accepts no further operations.
pub struct GroupSession {
    pub group_id: String,
    pub epoch: u64,
    pub roster: Vec<String>,
    pub secret: Vec<u8>,
    pub message_seq: u64,
    pub transcript: Vec<Message>,
    pub pending: Vec<KeyPackage>,
    pub consumed: Vec<Vec<u8>>,
    pub last_commit_id: Option<Vec<u8>>,
    pub active: bool,
}

/// What decrypting a ciphertext with the given fields returns, as a
/// function of the session's state: the session must be active, the
/// ciphertext must be bound to the current epoch, and its body must
/// open under the epoch secret and the message nonce.
pub open spec fn decrypt_model_v(s: GroupSession, epoch: u64, seq: u64, body: Seq<u8>) -> Result<
    Seq<u8>,
    EngineError,
> {
    if !s.active {
        Err(EngineError::SessionTerminated)
    } else if epoch != s.epoch {
        Err(EngineError::DecryptFailure)
    } else {
        match aead_opened(s.secret@, nonce12(seq), body) {
            Some(p) => Ok(p),
            None => Err(EngineError::DecryptFailure),
        }
    }
}

/// What decrypting a ciphertext returns.
pub open spec fn decrypt_model(s: GroupSession, cm: CipherMessage) -> Result<Seq<u8>, EngineError> {
    decrypt_model_v(s, cm.epoch, cm.seq, cm.body@)
}

/// Decrypting under an epoch other than the one the ciphertext is
/// bound to never silently succeeds: an active session rejects it.
pub proof fn lemma_decrypt_wrong_epoch(s: GroupSession, cm: CipherMessage)
    requires
        s.active,
        cm.epoch != s.epoch,
    ensures
        decrypt_model(s, cm) == Err::<Seq<u8>, EngineError>(EngineError::DecryptFailure),
{
}

/// The check a proposed Add must pass, and the error it fails with:
/// the session must be active; the package's signature must verify;
/// the package must not be expired at `now`; and neither its identity
/// (already a member or already proposed) nor its reference (already
/// consumed or already proposed) may be a replay.
pub open spec fn propose_add_check(s: GroupSession, kp: KeyPackageView, now: u64) -> Option<
    EngineError,
> {
    if !s.active {
        Some(EngineError::SessionTerminated)
    } else if !kp_signed(kp) {
        Some(EngineError::InvalidKeyPackage)
    } else if kp.not_after < now {
        Some(EngineError::ExpiredKeyPackage)
    } else if names_of(s.roster@).contains(kp.identity) || kp_names(s.pending@).contains(
        kp.identity,
    ) || bytes_views(s.consumed@).contains(kp.nonce) || kp_refs(s.pending@).contains(kp.nonce) {
        Some(EngineError::InvalidKeyPackage)
    } else {
        None
    }
}

/// How a received commit relates to the session: `Ok(true)` means it
/// advances the epoch; `Ok(false)` means it is a duplicate delivery of
/// the commit already applied, a no-op; otherwise the error to raise.
pub open spec fn apply_commit_result(s: GroupSession, c: Commit) -> Result<bool, EngineError> {
    if !s.active {
        Err(EngineError::SessionTerminated)
    } else if c.group_id@ != s.group_id@ {
        Err(EngineError::CommitRace)
    } else if c.new_epoch == s.epoch + 1 {
        Ok(true)
    } else if c.new_epoch <= s.epoch && (s.last_commit_id matches Some(id) && id@ == c.commit_id@) {
        Ok(false)
    } else if c.new_epoch <= s.epoch {
        Err(EngineError::StaleCommit)
    } else {
        Err(EngineError::CommitRace)
    }
}

/// Per accepted commit the epoch advances by exactly one; a commit
/// at or behind the current epoch is never accepted as an advance.
pub proof fn lemma_commit_epoch_discipline(s: GroupSession, c: Commit)
    ensures
        apply_commit_result(s, c) == Ok::<bool, EngineError>(true) ==> c.new_epoch == s.epoch + 1,
        c.new_epoch <= s.epoch ==> apply_commit_result(s, c) != Ok::<bool, EngineError>(true),
{
}

/// Whether `w` is the welcome addressed to the key package `kp`,
/// carrying `secret` sealed to the package's encapsulation key.
pub open spec fn addressed_welcome(
    w: Welcome,
    kp: KeyPackageView,
    group_id: Seq<char>,
    epoch: u64,
    roster_names: Seq<Seq<char>>,
    secret: Seq<u8>,
) -> bool {
    &&& w.group_id@ == group_id
    &&& w.epoch == epoch
    &&& w.target_ref@ == kp.nonce
    &&& names_of(w.roster@) == roster_names
    &&& (forall|sk: Seq<u8>|
        kem_pk_of(sk) == kp.init_key ==> kem_opened(sk, w.kem_output@, w.sealed_secret@) == Some(
            secret,
        ))
}

impl GroupSession {
    /// The session's structural invariant: an active session holds a
    /// 32-byte epoch secret.
    pub open spec fn wf(self) -> bool {
        self.active ==> self.secret@.len() == 32
    }

    /// Initialize a session at epoch 0 with the creator as its only
    /// member.  No network side effect; publication is the caller's
    /// explicit follow-up.  Fails only if the cryptographic provider
    /// fails to supply the initial epoch secret.
    pub fn create(provider: &CryptoProvider, group_id: &str, creator: &String) -> (r: Result<
        GroupSession,
        EngineError,
    >)
        ensures
            r matches Ok(s) ==> {
                &&& s.wf()
                &&& s.active
                &&& s.group_id@ == group_id@
                &&& s.epoch == 0
                &&& names_of(s.roster@) == seq![creator@]
                &&& s.message_seq == 0
                &&& s.transcript@.len() == 0
                &&& s.pending@.len() == 0
                &&& s.consumed@.len() == 0
            },
            r matches Err(e) ==> e == EngineError::CryptoProvider,
    {
        let secret = match provider.random_bytes(32) {
            Some(v) => v,
            None => {
                return Err(EngineError::CryptoProvider);
            },
        };
        let mut roster: Vec<String> = Vec::new();
        roster.push(creator.clone());
        let s = GroupSession {
            group_id: group_id.to_owned(),
            epoch: 0,
            roster,
            secret,
            message_seq: 0,
            transcript: Vec::new(),
            pending: Vec::new(),
            consumed: Vec::new(),
            last_commit_id: None,
            active: true,
        };
        assert(names_of(s.roster@) =~= seq![creator@]);
        Ok(s)
    }

    /// Validate a key package and add it to the pending proposal set.
    /// Nothing becomes durable before a commit.
    pub fn propose_add(&mut self, provider: &CryptoProvider, kp: KeyPackage, now: u64) -> (r:
        Result<(), EngineError>)
        ensures
            match propose_add_check(*old(self), kp@, now) {
                Some(e) => r == Err::<(), EngineError>(e) && *final(self) == *old(self),
                None => {
                    &&& r == Ok::<(), EngineError>(())
                    &&& final(self).pending@ == old(self).pending@.push(kp)
                    &&& final(self).group_id == old(self).group_id
                    &&& final(self).epoch == old(self).epoch
                    &&& final(self).roster == old(self).roster
                    &&& final(self).secret == old(self).secret
                    &&& final(self).message_seq == old(self).message_seq
                    &&& final(self).transcript == old(self).transcript
                    &&& final(self).consumed == old(self).consumed
                    &&& final(self).last_commit_id == old(self).last_commit_id
                    &&& final(self).active == old(self).active
                },
            },
    {
        if !self.active {
            return Err(EngineError::SessionTerminated);
        }
        if !kp.verify(provider) {
            return Err(EngineError::InvalidKeyPackage);
        }
        if kp.not_after < now {
            return Err(EngineError::ExpiredKeyPackage);
        }
        if contains_name(&self.roster, &kp.identity) || pending_contains_name(
            &self.pending,
            &kp.identity,
        ) || contains_bytes(&self.consumed, &kp.nonce) || pending_contains_ref(
            &self.pending,
            &kp.nonce,
        ) {
            return Err(EngineError::InvalidKeyPackage);
        }
        self.pending.push(kp);
        Ok(())
    }

    /// Finalize the pending proposals: advance the epoch by exactly
    /// one, derive the next epoch secret from the current one and the
    /// fresh commit identifier, extend the roster, and produce one
    /// welcome per added member, each sealed to that member's key
    /// package.  On any provider failure the session is unchanged.
    #[verifier::loop_isolation(false)]
    pub fn commit(&mut self, provider: &CryptoProvider) -> (r: Result<CommitOutput, EngineError>)
        requires
            old(self).wf(),
            old(self).epoch < u64::MAX,
        ensures
            !old(self).active ==> r == Err::<CommitOutput, EngineError>(
                EngineError::SessionTerminated,
            ) && *final(self) == *old(self),
            old(self).active ==> (r matches Err(e) ==> e == EngineError::CryptoProvider
                && *final(self) == *old(self)),
            r matches Ok(out) ==> {
                &&& out.commit.group_id@ == old(self).group_id@
                &&& out.commit.new_epoch == old(self).epoch + 1
                &&& kp_views(out.commit.adds@) == kp_views(old(self).pending@)
                &&& out.commit.commit_id@.len() == 16
                &&& final(self).active && final(self).wf()
                &&& final(self).epoch == old(self).epoch + 1
                &&& final(self).secret@ == kdf32_of(old(self).secret@, out.commit.commit_id@)
                &&& names_of(final(self).roster@) == names_of(old(self).roster@) + kp_names(
                    old(self).pending@,
                )
                &&& final(self).roster@.len() == old(self).roster@.len() + old(self).pending@.len()
                &&& final(self).pending@.len() == 0
                &&& bytes_views(final(self).consumed@) == bytes_views(old(self).consumed@)
                    + kp_refs(old(self).pending@)
                &&& final(self).message_seq == 0
                &&& final(self).transcript == old(self).transcript
                &&& final(self).group_id == old(self).group_id
                &&& (final(self).last_commit_id matches Some(id) && id@ == out.commit.commit_id@)
                &&& out.welcomes@.len() == old(self).pending@.len()
                &&& (forall|i: int|
                    0 <= i < out.welcomes@.len() ==> addressed_welcome(
                        #[trigger] out.welcomes@[i],
                        old(self).pending@[i]@,
                        old(self).group_id@,
                        (old(self).epoch + 1) as u64,
                        names_of(final(self).roster@),
                        final(self).secret@,
                    ))
            },
    {
        if !self.active {
            return Err(EngineError::SessionTerminated);
        }
        let commit_id = match provider.random_bytes(16) {
            Some(v) => v,
            None => {
                return Err(EngineError::CryptoProvider);
            },
        };
        let new_secret = match provider.kdf_expand32(self.secret.as_slice(), commit_id.as_slice()) {
            Some(v) => v,
            None => {
                proof {
                    assert(false);
                }
                return Err(EngineError::CryptoProvider);
            },
        };
        let new_epoch = self.epoch + 1;

        // The roster as it stands after this commit.
        let ghost s0 = *self;
        let mut new_roster = copy_strings(&self.roster);
        let mut j: usize = 0;
        while j < self.pending.len()
            invariant
                j <= s0.pending@.len(),
                *self == s0,
                names_of(new_roster@) == names_of(s0.roster@) + kp_names(
                    s0.pending@.take(j as int),
                ),
                new_roster@.len() == s0.roster@.len() + j,
            decreases s0.pending@.len() - j,
        {
            let ghost prev = new_roster@;
            new_roster.push(self.pending[j].identity.clone());
            j = j + 1;
            proof {
                let x = new_roster@.last();
                assert(new_roster@ == prev.push(x));
                assert(x@ == s0.pending@[j - 1]@.identity);
                assert(names_of(prev.push(x)) =~= names_of(prev).push(x@));
                assert(kp_names(s0.pending@.take(j as int)) =~= kp_names(
                    s0.pending@.take(j - 1),
                ).push(x@));
                assert(names_of(s0.roster@) + kp_names(s0.pending@.take(j as int)) =~= (names_of(
                    s0.roster@,
                ) + kp_names(s0.pending@.take(j - 1))).push(x@));
            }
        }
        assert(self.pending@.take(self.pending@.len() as int) =~= self.pending@);

        // One welcome per added member, sealed to its key package.
        let mut welcomes: Vec<Welcome> = Vec::new();
        let mut i: usize = 0;
        while i < self.pending.len()
            invariant
                i <= s0.pending@.len(),
                welcomes@.len() == i,
                *self == s0,
                new_secret@ == kdf32_of(s0.secret@, commit_id@),
                names_of(new_roster@) == names_of(s0.roster@) + kp_names(s0.pending@),
                forall|k: int|
                    0 <= k < i ==> addressed_welcome(
                        #[trigger] welcomes@[k],
                        s0.pending@[k]@,
                        s0.group_id@,
                        new_epoch,
                        names_of(new_roster@),
                        new_secret@,
                    ),
            decreases s0.pending@.len() - i,
        {
            let sealed = provider.kem_seal(self.pending[i].init_key.as_slice(), new_secret.as_slice());
            let (kem_output, sealed_secret) = match sealed {
                Some(p) => p,
                None => {
                    return Err(EngineError::CryptoProvider);
                },
            };
            let target_ref = copy_bytes(&self.pending[i].nonce);
            welcomes.push(
                Welcome {
                    group_id: self.group_id.clone(),
                    epoch: new_epoch,
                    target_ref,
                    kem_output,
                    sealed_secret,
                    roster: copy_strings(&new_roster),
                },
            );
            i = i + 1;
        }

        // The commit artifact carries copies of the added packages.
        let mut adds: Vec<KeyPackage> = Vec::new();
        let mut m: usize = 0;
        while m < self.pending.len()
            invariant
                m <= s0.pending@.len(),
                *self == s0,
                kp_views(adds@) == kp_views(s0.pending@.take(m as int)),
            decreases s0.pending@.len() - m,
        {
            let ghost prev = adds@;
            adds.push(self.pending[m].duplicate());
            m = m + 1;
            proof {
                let x = adds@.last();
                assert(adds@ == prev.push(x));
                assert(x@ == s0.pending@[m - 1]@);
                assert(kp_views(prev.push(x)) =~= kp_views(prev).push(x@));
                assert(kp_views(s0.pending@.take(m as int)) =~= kp_views(
                    s0.pending@.take(m - 1),
                ).push(x@));
            }
        }

        // Apply the transition.
        let mut k: usize = 0;
        while k < self.pending.len()
            invariant
                k <= s0.pending@.len(),
                bytes_views(self.consumed@) == bytes_views(s0.consumed@) + kp_refs(
                    s0.pending@.take(k as int),
                ),
                self.pending == s0.pending,
                self.group_id == s0.group_id,
                self.epoch == s0.epoch,
                self.roster == s0.roster,
                self.secret == s0.secret,
                self.message_seq == s0.message_seq,
                self.transcript == s0.transcript,
                self.last_commit_id == s0.last_commit_id,
                self.active == s0.active,
            decreases s0.pending@.len() - k,
        {
            let ghost prev = self.consumed@;
            let reference = copy_bytes(&self.pending[k].nonce);
            self.consumed.push(reference);
            k = k + 1;
            proof {
                let x = self.consumed@.last();
                assert(self.consumed@ == prev.push(x));
                assert(x@ == s0.pending@[k - 1]@.nonce);
                assert(bytes_views(prev.push(x)) =~= bytes_views(prev).push(x@));
                assert(kp_refs(s0.pending@.take(k as int)) =~= kp_refs(
                    s0.pending@.take(k - 1),
                ).push(x@));
                assert(bytes_views(s0.consumed@) + kp_refs(s0.pending@.take(k as int)) =~= (
                bytes_views(s0.consumed@) + kp_refs(s0.pending@.take(k - 1))).push(x@));
            }
        }

        let group_id = self.group_id.clone();
        let commit_id_copy = copy_bytes(&commit_id);
        self.epoch = new_epoch;
        self.secret = new_secret;
        self.roster = new_roster;
        self.pending = Vec::new();
        self.message_seq = 0;
        self.last_commit_id = Some(commit_id_copy);
        Ok(CommitOutput { commit: Commit { group_id, new_epoch, adds, commit_id }, welcomes })
    }

    /// Apply a peer's commit.  A commit for the next epoch advances
    /// the session by exactly one epoch; a duplicate delivery of the
    /// commit already applied is a no-op; a commit at or behind the
    /// current epoch is rejected as stale; a commit for another group
    /// or a later epoch cannot apply to this history and must be
    /// re-derived.  The state never changes except on acceptance.
    ///
    /// Key packages were validated when proposed on the committer's
    /// side; the delivery service's per-group order of commits is
    /// authoritative here.
    #[verifier::loop_isolation(false)]
    pub fn apply_commit(&mut self, provider: &CryptoProvider, commit: &Commit) -> (r: Result<
        (),
        EngineError,
    >)
        requires
            old(self).wf(),
        ensures
            final(self).wf(),
            match apply_commit_result(*old(self), *commit) {
                Ok(true) => {
                    &&& r == Ok::<(), EngineError>(())
                    &&& final(self).active
                    &&& final(self).epoch == old(self).epoch + 1
                    &&& final(self).secret@ == kdf32_of(old(self).secret@, commit.commit_id@)
                    &&& names_of(final(self).roster@) == extend_unique(
                        names_of(old(self).roster@),
                        kp_names(commit.adds@),
                    )
                    &&& bytes_views(final(self).consumed@) == bytes_views(old(self).consumed@)
                        + kp_refs(commit.adds@)
                    &&& final(self).pending@.len() == 0
                    &&& final(self).message_seq == 0
                    &&& final(self).transcript == old(self).transcript
                    &&& final(self).group_id == old(self).group_id
                    &&& (final(self).last_commit_id matches Some(id) && id@ == commit.commit_id@)
                },
                Ok(false) => r == Ok::<(), EngineError>(()) && *final(self) == *old(self),
                Err(e) => r == Err::<(), EngineError>(e) && *final(self) == *old(self),
            },
            (old(self).active && commit.group_id@ == old(self).group_id@
                && commit.new_epoch <= old(self).epoch) ==> (*final(self) == *old(self)
                && (r == Ok::<(), EngineError>(()) || r == Err::<(), EngineError>(
                EngineError::StaleCommit,
            ))),
    {
        if !self.active {
            return Err(EngineError::SessionTerminated);
        }
        if !self.group_id.eq(&commit.group_id) {
            return Err(EngineError::CommitRace);
        }
        if self.epoch < u64::MAX && commit.new_epoch == self.epoch + 1 {
            let new_secret = match provider.kdf_expand32(
                self.secret.as_slice(),
                commit.commit_id.as_slice(),
            ) {
                Some(v) => v,
                None => {
                    proof {
                        assert(false);
                    }
                    return Err(EngineError::CryptoProvider);
                },
            };

            // Extend the roster with the identities not yet present.
            let ghost old_roster_names = names_of(self.roster@);
            let mut j: usize = 0;
            while j < commit.adds.len()
                invariant
                    j <= commit.adds@.len(),
                    names_of(self.roster@) == extend_unique(
                        old_roster_names,
                        kp_names(commit.adds@.take(j as int)),
                    ),
                    self.group_id == old(self).group_id,
                    self.epoch == old(self).epoch,
                    self.secret == old(self).secret,
                    self.message_seq == old(self).message_seq,
                    self.transcript == old(self).transcript,
                    self.pending == old(self).pending,
                    self.consumed == old(self).consumed,
                    self.last_commit_id == old(self).last_commit_id,
                    self.active == old(self).active,
                decreases commit.adds@.len() - j,
            {
                let ghost prev = self.roster@;
                proof {
                    assert(kp_names(commit.adds@.take(j as int)) =~= kp_names(
                        commit.adds@.take(j + 1),
                    ).drop_last());
                    assert(kp_names(commit.adds@.take(j + 1)).last() == commit.adds@[j as int]@.identity);
                }
                if !contains_name(&self.roster, &commit.adds[j].identity) {
                    self.roster.push(commit.adds[j].identity.clone());
                    proof {
                        assert(names_of(self.roster@) =~= names_of(prev).push(
                            commit.adds@[j as int]@.identity,
                        ));
                    }
                }
                j = j + 1;
                assert(names_of(self.roster@) == extend_unique(
                    old_roster_names,
                    kp_names(commit.adds@.take(j as int)),
                ));
            }
            assert(kp_names(commit.adds@.take(commit.adds@.len() as int)) =~= kp_names(
                commit.adds@,
            ));

            // Record the consumed references.
            let mut k: usize = 0;
            while k < commit.adds.len()
                invariant
                    k <= commit.adds@.len(),
                    bytes_views(self.consumed@) == bytes_views(old(self).consumed@) + kp_refs(
                        commit.adds@.take(k as int),
                    ),
                    names_of(self.roster@) == extend_unique(
                        old_roster_names,
                        kp_names(commit.adds@),
                    ),
                    self.group_id == old(self).group_id,
                    self.epoch == old(self).epoch,
                    self.secret == old(self).secret,
                    self.message_seq == old(self).message_seq,
                    self.transcript == old(self).transcript,
                    self.pending == old(self).pending,
                    self.last_commit_id == old(self).last_commit_id,
                    self.active == old(self).active,
                decreases commit.adds@.len() - k,
            {
                let ghost prev = self.consumed@;
                let reference = copy_bytes(&commit.adds[k].nonce);
                self.consumed.push(reference);
                k = k + 1;
                proof {
                    let x = self.consumed@.last();
                    assert(self.consumed@ == prev.push(x));
                    assert(x@ == commit.adds@[k - 1]@.nonce);
                    assert(bytes_views(prev.push(x)) =~= bytes_views(prev).push(x@));
                    assert(kp_refs(commit.adds@.take(k as int)) =~= kp_refs(
                        commit.adds@.take(k - 1),
                    ).push(x@));
                    assert(bytes_views(old(self).consumed@) + kp_refs(
                        commit.adds@.take(k as int),
                    ) =~= (bytes_views(old(self).consumed@) + kp_refs(
                        commit.adds@.take(k - 1),
                    )).push(x@));
                }
            }
            assert(kp_refs(commit.adds@.take(commit.adds@.len() as int)) =~= kp_refs(
                commit.adds@,
            ));

            self.epoch = self.epoch + 1;
            self.secret = new_secret;
            self.pending = Vec::new();
            self.message_seq = 0;
            self.last_commit_id = Some(copy_bytes(&commit.commit_id));
            return Ok(());
        }
        if commit.new_epoch <= self.epoch {
            match &self.last_commit_id {
                Some(id) => {
                    if bytes_eq(id, &commit.commit_id) {
                        return Ok(());
                    }
                },
                None => {},
            }
            return Err(EngineError::StaleCommit);
        }
        Err(EngineError::CommitRace)
    }

    /// Encrypt a message under the current epoch.  The ciphertext is
    /// bound to the epoch and, by its own contract, decrypts back to
    /// the plaintext under the very state it was produced in.  An
    /// active session owes the encryption for every plaintext within
    /// the cipher's length bound.
    pub fn encrypt(&mut self, provider: &CryptoProvider, plaintext: &[u8]) -> (r: Result<
        CipherMessage,
        EngineError,
    >)
        requires
            old(self).wf(),
            old(self).message_seq < u64::MAX,
        ensures
            final(self).wf(),
            old(self).active && plaintext@.len() <= AEAD_PLAINTEXT_MAX ==> r is Ok,
            !old(self).active ==> r == Err::<CipherMessage, EngineError>(
                EngineError::SessionTerminated,
            ) && *final(self) == *old(self),
            old(self).active ==> (r matches Err(e) ==> e == EngineError::CryptoProvider
                && *final(self) == *old(self)),
            r matches Ok(cm) ==> {
                &&& cm.epoch == old(self).epoch
                &&& cm.seq == old(self).message_seq
                &&& cm.body@ == aead_sealed(old(self).secret@, nonce12(cm.seq), plaintext@)
                &&& decrypt_model(*old(self), cm) == Ok::<Seq<u8>, EngineError>(plaintext@)
                &&& final(self).message_seq == old(self).message_seq + 1
                &&& final(self).epoch == old(self).epoch
                &&& final(self).secret == old(self).secret
                &&& final(self).roster == old(self).roster
                &&& final(self).transcript == old(self).transcript
                &&& final(self).group_id == old(self).group_id
                &&& final(self).pending == old(self).pending
                &&& final(self).consumed == old(self).consumed
                &&& final(self).last_commit_id == old(self).last_commit_id
                &&& final(self).active == old(self).active
            },
    {
        if !self.active {
            return Err(EngineError::SessionTerminated);
        }
        let nonce = nonce12_bytes(self.message_seq);
        let body = match provider.aead_seal(self.secret.as_slice(), nonce.as_slice(), plaintext) {
            Some(v) => v,
            None => {
                return Err(EngineError::CryptoProvider);
            },
        };
        let cm = CipherMessage { epoch: self.epoch, seq: self.message_seq, body };
        self.message_seq = self.message_seq + 1;
        Ok(cm)
    }

    /// Decrypt a ciphertext.  The session never changes state here; a
    /// ciphertext from another epoch, or one that does not open under
    /// the epoch secret, fails without being silently accepted.
    pub fn decrypt(&self, provider: &CryptoProvider, cm: &CipherMessage) -> (r: Result<
        Vec<u8>,
        EngineError,
    >)
        requires
            self.wf(),
        ensures
            r matches Ok(p) ==> decrypt_model(*self, *cm) == Ok::<Seq<u8>, EngineError>(p@),
            r matches Err(e) ==> decrypt_model(*self, *cm) == Err::<Seq<u8>, EngineError>(e),
            self.active && cm.epoch != self.epoch ==> r == Err::<Vec<u8>, EngineError>(
                EngineError::DecryptFailure,
            ),
    {
        if !self.active {
            return Err(EngineError::SessionTerminated);
        }
        if cm.epoch != self.epoch {
            return Err(EngineError::DecryptFailure);
        }
        let nonce = nonce12_bytes(cm.seq);
        match provider.aead_open(self.secret.as_slice(), nonce.as_slice(), cm.body.as_slice()) {
            Some(p) => Ok(p),
            None => Err(EngineError::DecryptFailure),
        }
    }

    /// Append a message to the transcript.  The transcript is
    /// append-only: receipt order, never reordered, never mutated.
    pub fn record_message(&mut self, msg: Message) -> (r: Result<(), EngineError>)
        ensures
            !old(self).active ==> r == Err::<(), EngineError>(EngineError::SessionTerminated)
                && *final(self) == *old(self),
            old(self).active ==> {
                &&& r == Ok::<(), EngineError>(())
                &&& final(self).transcript@ == old(self).transcript@.push(msg)
                &&& final(self).group_id == old(self).group_id
                &&& final(self).epoch == old(self).epoch
                &&& final(self).roster == old(self).roster
                &&& final(self).secret == old(self).secret
                &&& final(self).message_seq == old(self).message_seq
                &&& final(self).pending == old(self).pending
                &&& final(self).consumed == old(self).consumed
                &&& final(self).last_commit_id == old(self).last_commit_id
                &&& final(self).active == old(self).active
            },
    {
        if !self.active {
            return Err(EngineError::SessionTerminated);
        }
        self.transcript.push(msg);
        Ok(())
    }

    /// Leave the group: the session becomes terminated, its secret is
    /// discarded, and every further operation fails.
    pub fn leave(&mut self)
        ensures
            !final(self).active,
            final(self).wf(),
            final(self).secret@.len() == 0,
            final(self).transcript == old(self).transcript,
            final(self).group_id == old(self).group_id,
            final(self).epoch == old(self).epoch,
    {
        self.active = false;
        self.secret = Vec::new();
    }
}

/// Whether one of the pending packages advertises the identity `s`.
pub fn pending_contains_name(v: &Vec<KeyPackage>, s: &String) -> (r: bool)
    ensures
        r == kp_names(v@).contains(s@),
{
    let mut i: usize = 0;
    while i < v.len()
        invariant
            i <= v.len(),
            forall|j: int| 0 <= j < i ==> kp_names(v@)[j] != s@,
        decreases v.len() - i,
    {
        if v[i].identity.eq(s) {
            assert(kp_names(v@)[i as int] == s@);
            return true;
        }
        i = i + 1;
    }
    false
}

/// Whether one of the pending packages carries the reference `b`.
pub fn pending_contains_ref(v: &Vec<KeyPackage>, b: &Vec<u8>) -> (r: bool)
    ensures
        r == kp_refs(v@).contains(b@),
{
    let mut i: usize = 0;
    while i < v.len()
        invariant
            i <= v.len(),
            forall|j: int| 0 <= j < i ==> kp_refs(v@)[j] != b@,
        decreases v.len() - i,
    {
        if bytes_eq(&v[i].nonce, b) {
            assert(kp_refs(v@)[i as int] == b@);
            return true;
        }
        i = i + 1;
    }
    false
}

} // verus!
