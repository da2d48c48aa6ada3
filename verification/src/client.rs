//! The synchronization coordinator.
//!
//! User intent (create, join, send) enters here; the coordinator
//! drives the group session to produce protocol artifacts, frames
//! them for the delivery service, and folds the service's answers
//! back into the session registry.  Local-first: a group created
//! while disconnected stays registered and usable, and a send is
//! recorded locally whether or not the service is reachable.

use vstd::prelude::*;
use vstd::string::StringExecFns;
use vstd::utf8::{decode_utf8, encode_utf8, valid_utf8};

use crate::codec::{
    bytes_to_string, cipher_bytes, decode_cipher_message, decode_welcome, encode_cipher_message,
    parse_cipher, parse_welcome,
};
use crate::config::Config;
use crate::crypto::{aead_sealed, kem_opened, CryptoProvider, AEAD_PLAINTEXT_MAX};
use crate::errors::EngineError;
use crate::mls_client::{find_issued, kp_wire, MlsClient};
use crate::network::{
    create_group_line, join_group_line, network_message_line_v, NetworkMessage,
};
use crate::registry::{first_group_index, group_ids, Group, Registry};
use crate::session::{decrypt_model_v, names_of, nonce12, Message};
use crate::ui::{dec_of, push_u64_dec};

verus! {

/// The visible outcome of folding a join answer in.
#[derive(Clone, Copy, Debug, PartialEq, Eq, Structural)]
pub enum JoinOutcome {
    /// A welcome was consumed and the session registered.
    Joined,
    /// The service answered with an empty payload: not found or
    /// access denied.  Nothing was created.
    NotFound,
}

/// The visible outcome of sending a message.
pub enum SendOutcome {
    /// No group with the given identifier is registered.
    NoSuchGroup,
    /// Recorded locally; the service is not connected.
    Local,
    /// Recorded locally and framed for the service.
    Sent(Vec<u8>),
}

/// The status line shown right after start-up.
pub open spec fn greeting_status(connected: bool, addr: Seq<char>) -> Seq<char> {
    if connected {
        "Connected to MLS service at "@ + addr + ". Groups will be synchronized."@
    } else {
        "Disconnected from MLS service at "@ + addr + ". Groups will be local only."@
    }
}

/// The status line after creating a group.
pub open spec fn created_group_status(connected: bool, id: Seq<char>) -> Seq<char> {
    if connected {
        "Created and published group: "@ + id
    } else {
        "Created local group: "@ + id + " - not connected to MLS service"@
    }
}

/// The status line when a join is attempted while disconnected.
pub open spec fn join_needs_connection_status(id: Seq<char>) -> Seq<char> {
    "Cannot join group "@ + id + ": not connected to the delivery service"@
}

/// The status line when a join targets an already registered group.
pub open spec fn already_in_group_status(id: Seq<char>) -> Seq<char> {
    "Already in group: "@ + id
}

/// The status line when the service knows no such group.
pub open spec fn not_found_status(id: Seq<char>) -> Seq<char> {
    "Group "@ + id + " not found or access denied"@
}

/// The status line after a successful join.
pub open spec fn joined_status(id: Seq<char>) -> Seq<char> {
    "Successfully joined group: "@ + id
}

/// The status line after recording a sent message.
pub open spec fn sent_status(name: Seq<char>) -> Seq<char> {
    "Message sent to "@ + name
}

/// The warning after a group was created but its publication to the
/// service could not be delivered.
pub open spec fn publish_failed_status(id: Seq<char>) -> Seq<char> {
    "Created group: "@ + id + ", but failed to publish to the delivery service"@
}

/// The status line of an explicit connectivity report.
pub open spec fn connectivity_status(connected: bool, addr: Seq<char>, n: int) -> Seq<char> {
    if connected {
        "Connected to MLS service at "@ + addr + ". "@ + dec_of(n) + " groups available."@
    } else {
        "Disconnected from MLS service at "@ + addr + ". Groups will be local only."@
    }
}

/// The identifier a locally sent message is recorded under: unique
/// because the transcript only ever grows.
pub open spec fn sent_message_id(n: int) -> Seq<char> {
    seq!['m'] + dec_of(n)
}

/// The identifier a received message is recorded under.
pub open spec fn received_message_id(n: int) -> Seq<char> {
    seq!['r'] + dec_of(n)
}

/// How a successful send relates the coordinator's states: the group
/// at index `i` is the one addressed, its session advanced by one
/// message, its transcript extended with exactly the sent message,
/// and the framed envelope (when connected) is the exact wire line of
/// that ciphertext.
pub open spec fn sent_at(
    pre: App,
    post: App,
    i: int,
    out: SendOutcome,
    group_id: Seq<char>,
    text: Seq<char>,
    now: u64,
) -> bool {
    &&& 0 <= i < pre.groups.groups@.len()
    &&& pre.groups.groups@[i].id@ == group_id
    &&& post.groups.groups@ == pre.groups.groups@.update(i, post.groups.groups@[i])
    &&& post.groups.groups@[i].id == pre.groups.groups@[i].id
    &&& post.groups.groups@[i].name == pre.groups.groups@[i].name
    &&& {
        let s0 = pre.groups.groups@[i].session;
        let s1 = post.groups.groups@[i].session;
        &&& s1.epoch == s0.epoch
        &&& s1.roster == s0.roster
        &&& s1.secret == s0.secret
        &&& s1.message_seq == s0.message_seq + 1
        &&& s1.transcript@.len() == s0.transcript@.len() + 1
        &&& s1.transcript@.take(s0.transcript@.len() as int) == s0.transcript@
        &&& s1.transcript@.last().id@ == sent_message_id(s0.transcript@.len() as int)
        &&& s1.transcript@.last().sender@ == pre.config.username@
        &&& s1.transcript@.last().content@ == text
        &&& s1.transcript@.last().timestamp == now
        &&& s1.transcript@.last().group_id@ == group_id
        &&& (out matches SendOutcome::Sent(line) ==> line@ == network_message_line_v(
            "message"@,
            pre.config.username@,
            None,
            Some(group_id),
            cipher_bytes(
                s0.epoch,
                s0.message_seq,
                aead_sealed(s0.secret@, nonce12(s0.message_seq), encode_utf8(text)),
            ),
            now,
        ))
        &&& post.status_message@ == sent_status(pre.groups.groups@[i].name@)
    }
}

/// How a successfully received message relates the coordinator's
/// states: the content parsed as a ciphertext, decrypted under the
/// addressed group's current epoch, and the recovered text stands
/// last in that group's transcript.
pub open spec fn received_at(
    pre: App,
    post: App,
    i: int,
    group_id: Seq<char>,
    sender: Seq<char>,
    content: Seq<u8>,
    now: u64,
) -> bool {
    &&& 0 <= i < pre.groups.groups@.len()
    &&& pre.groups.groups@[i].id@ == group_id
    &&& post.groups.groups@ == pre.groups.groups@.update(i, post.groups.groups@[i])
    &&& post.groups.groups@[i].id == pre.groups.groups@[i].id
    &&& post.groups.groups@[i].name == pre.groups.groups@[i].name
    &&& post.status_message == pre.status_message
    &&& {
        let s0 = pre.groups.groups@[i].session;
        let s1 = post.groups.groups@[i].session;
        &&& parse_cipher(content) matches Some(c)
        &&& decrypt_model_v(s0, c.0, c.1, c.2) matches Ok(pt)
        &&& valid_utf8(pt)
        &&& s1.epoch == s0.epoch
        &&& s1.roster == s0.roster
        &&& s1.secret == s0.secret
        &&& s1.message_seq == s0.message_seq
        &&& s1.transcript@.len() == s0.transcript@.len() + 1
        &&& s1.transcript@.take(s0.transcript@.len() as int) == s0.transcript@
        &&& s1.transcript@.last().id@ == received_message_id(s0.transcript@.len() as int)
        &&& s1.transcript@.last().sender@ == sender
        &&& s1.transcript@.last().content@ == decode_utf8(pt)
        &&& s1.transcript@.last().timestamp == now
        &&& s1.transcript@.last().group_id@ == group_id
    }
}

/// The client application's verified core: configuration, identity,
/// protocol client, and the registry of group sessions.
pub struct App {
    pub config: Config,
    pub mls_client: MlsClient,
    pub network_client: crate::network::NetworkClient,
    pub groups: Registry,
    pub active_group: Option<String>,
    pub status_message: String,
}

impl App {
    /// Every registered session satisfies its structural invariant.
    pub open spec fn sessions_wf(self) -> bool {
        forall|i: int|
            0 <= i < self.groups.groups@.len() ==> (#[trigger] self.groups.groups@[i]).session.wf()
    }

    /// Assemble the coordinator around an identity, a protocol client
    /// and a configuration; the greeting reflects connectivity.
    pub fn new(
        config: Config,
        mls_client: MlsClient,
        network_client: crate::network::NetworkClient,
    ) -> (r: App)
        ensures
            r.sessions_wf(),
            r.groups.groups@.len() == 0,
            r.active_group is None,
            r.config == config,
            r.mls_client == mls_client,
            r.network_client == network_client,
            r.status_message@ == greeting_status(
                network_client.connected,
                config.delivery_service_address@,
            ),
    {
        let mut status = if network_client.is_connected() {
            String::from_str("Connected to MLS service at ")
        } else {
            String::from_str("Disconnected from MLS service at ")
        };
        status.append(config.delivery_service_address.as_str());
        if network_client.is_connected() {
            status.append(". Groups will be synchronized.");
        } else {
            status.append(". Groups will be local only.");
        }
        App {
            config,
            mls_client,
            network_client,
            groups: Registry::new(),
            active_group: None,
            status_message: status,
        }
    }

    /// Create a group under a caller-chosen identifier.
    ///
    /// A second creation under an identifier already registered fails
    /// locally, before any network request is framed, and changes
    /// nothing.  Otherwise the session is created at epoch 0 and
    /// registered whatever the connectivity: when connected the
    /// request line to publish it is returned, and when disconnected
    /// the group is local-only, which the status says.  If the caller
    /// then cannot deliver the returned line, it reports that through
    /// `publish_failed`, which downgrades the status to a warning;
    /// the group stays registered either way.
    pub fn create_group(&mut self, provider: &CryptoProvider, group_id: &str) -> (r: Result<
        Option<Vec<u8>>,
        EngineError,
    >)
        requires
            old(self).sessions_wf(),
        ensures
            final(self).sessions_wf(),
            group_ids(old(self).groups.groups@).contains(group_id@) ==> r == Err::<
                Option<Vec<u8>>,
                EngineError,
            >(EngineError::DuplicateGroup) && *final(self) == *old(self),
            r matches Err(e) ==> *final(self) == *old(self) && (e == EngineError::DuplicateGroup
                || e == EngineError::CryptoProvider) && (e == EngineError::DuplicateGroup
                <==> group_ids(old(self).groups.groups@).contains(group_id@)),
            r matches Ok(opt) ==> {
                &&& !group_ids(old(self).groups.groups@).contains(group_id@)
                &&& final(self).groups.groups@.len() == old(self).groups.groups@.len() + 1
                &&& final(self).groups.groups@.take(old(self).groups.groups@.len() as int) == old(self).groups.groups@
                &&& final(self).groups.groups@.last().id@ == group_id@
                &&& final(self).groups.groups@.last().name@ == group_id@
                &&& final(self).groups.groups@.last().session.active
                &&& final(self).groups.groups@.last().session.epoch == 0
                &&& names_of(final(self).groups.groups@.last().session.roster@) == seq![
                    old(self).mls_client.credential@,
                ]
                &&& (final(self).active_group matches Some(a) && a@ == group_id@)
                &&& (opt is Some <==> old(self).network_client.connected)
                &&& (opt matches Some(line) ==> line@ == create_group_line(
                    group_id@,
                    old(self).config.username@,
                    encode_utf8(group_id@),
                ))
                &&& final(self).status_message@ == created_group_status(
                    old(self).network_client.connected,
                    group_id@,
                )
                &&& final(self).config == old(self).config
                &&& final(self).mls_client == old(self).mls_client
                &&& final(self).network_client == old(self).network_client
            },
    {
        match self.groups.find_index(group_id) {
            Some(i) => {
                proof {
                    assert(group_ids(self.groups.groups@)[i as int] == group_id@);
                }
                return Err(EngineError::DuplicateGroup);
            },
            None => {},
        }
        let session = match self.mls_client.create_group(provider, group_id) {
            Ok(s) => s,
            Err(e) => {
                return Err(e);
            },
        };
        let group = Group { id: group_id.to_owned(), name: group_id.to_owned(), session };
        match self.groups.put(group) {
            Ok(()) => {},
            Err(_) => {
                proof {
                    assert(false);
                }
                return Err(EngineError::DuplicateGroup);
            },
        }
        self.active_group = Some(group_id.to_owned());
        if self.network_client.is_connected() {
            let line = match self.network_client.create_group(
                group_id,
                group_id.as_bytes(),
                self.config.username.as_str(),
            ) {
                Ok(l) => l,
                Err(_) => {
                    proof {
                        assert(false);
                    }
                    return Err(EngineError::NotConnected);
                },
            };
            let mut status = String::from_str("Created and published group: ");
            status.append(group_id);
            self.status_message = status;
            Ok(Some(line))
        } else {
            let mut status = String::from_str("Created local group: ");
            status.append(group_id);
            status.append(" - not connected to MLS service");
            self.status_message = status;
            Ok(None)
        }
    }

    /// Frame the request to join a group.
    ///
    /// Joining requires the service, unlike creating: when
    /// disconnected this fails fast.  An identifier already
    /// registered is refused before anything is framed.  Nothing in
    /// the registry ever changes here.
    pub fn join_group_request(&mut self, group_id: &str) -> (r: Result<Vec<u8>, EngineError>)
        ensures
            final(self).groups == old(self).groups,
            final(self).active_group == old(self).active_group,
            final(self).config == old(self).config,
            final(self).mls_client == old(self).mls_client,
            final(self).network_client == old(self).network_client,
            !old(self).network_client.connected ==> r == Err::<Vec<u8>, EngineError>(
                EngineError::NotConnected,
            ) && final(self).status_message@ == join_needs_connection_status(group_id@),
            old(self).network_client.connected && group_ids(old(self).groups.groups@).contains(
                group_id@,
            ) ==> r == Err::<Vec<u8>, EngineError>(EngineError::DuplicateSession) && final(self).status_message@ == already_in_group_status(group_id@),
            old(self).network_client.connected && !group_ids(old(self).groups.groups@).contains(
                group_id@,
            ) ==> (r matches Ok(line) && line@ == join_group_line(
                group_id@,
                old(self).config.username@,
                kp_wire(old(self).mls_client.key_package@),
            ) && final(self).status_message == old(self).status_message),
    {
        if !self.network_client.is_connected() {
            let mut status = String::from_str("Cannot join group ");
            status.append(group_id);
            status.append(": not connected to the delivery service");
            self.status_message = status;
            return Err(EngineError::NotConnected);
        }
        match self.groups.find_index(group_id) {
            Some(i) => {
                proof {
                    assert(group_ids(self.groups.groups@)[i as int] == group_id@);
                }
                let mut status = String::from_str("Already in group: ");
                status.append(group_id);
                self.status_message = status;
                return Err(EngineError::DuplicateSession);
            },
            None => {},
        }
        let kp_bytes = self.mls_client.key_package.encode_bytes();
        let line = match self.network_client.join_group(
            group_id,
            kp_bytes.as_slice(),
            self.config.username.as_str(),
        ) {
            Ok(l) => l,
            Err(_) => {
                proof {
                    assert(false);
                }
                return Err(EngineError::NotConnected);
            },
        };
        Ok(line)
    }

    /// Fold the service's answer to a join request into the registry.
    ///
    /// An empty payload means not found or access denied: that
    /// outcome is reported and no session is created, ever.  A
    /// payload that does not parse as a welcome, a welcome this
    /// client never issued the key package for, and a welcome for a
    /// group already registered all fail without touching the
    /// registry.  Only a consumable welcome registers a session, at
    /// the welcome's epoch.
    pub fn join_group_response(
        &mut self,
        provider: &CryptoProvider,
        group_id: &str,
        payload: &[u8],
    ) -> (r: Result<JoinOutcome, EngineError>)
        requires
            old(self).sessions_wf(),
        ensures
            final(self).sessions_wf(),
            final(self).config == old(self).config,
            final(self).mls_client == old(self).mls_client,
            final(self).network_client == old(self).network_client,
            payload@.len() == 0 ==> r == Ok::<JoinOutcome, EngineError>(JoinOutcome::NotFound)
                && final(self).groups == old(self).groups && final(self).active_group == old(self).active_group && final(self).status_message@ == not_found_status(group_id@),
            r matches Err(e) ==> final(self).groups == old(self).groups && final(self).active_group
                == old(self).active_group,
            payload@.len() > 0 && parse_welcome(payload@) is None ==> r == Err::<
                JoinOutcome,
                EngineError,
            >(EngineError::WelcomeParse),
            r == Ok::<JoinOutcome, EngineError>(JoinOutcome::Joined) ==> {
                &&& parse_welcome(payload@) matches Some(m)
                &&& final(self).groups.groups@.len() == old(self).groups.groups@.len() + 1
                &&& final(self).groups.groups@.take(old(self).groups.groups@.len() as int) == old(self).groups.groups@
                &&& final(self).groups.groups@.last().id@ == m.group_id
                &&& final(self).groups.groups@.last().session.active
                &&& final(self).groups.groups@.last().session.epoch == m.epoch
                &&& names_of(final(self).groups.groups@.last().session.roster@) == m.roster
                &&& (find_issued(old(self).mls_client.issued@, m.target_ref) matches Some(sk)
                    && kem_opened(sk, m.kem_output, m.sealed_secret) == Some(
                    final(self).groups.groups@.last().session.secret@,
                ))
                &&& !group_ids(old(self).groups.groups@).contains(m.group_id)
                &&& (final(self).active_group matches Some(a) && a@ == m.group_id)
                &&& final(self).status_message@ == joined_status(m.group_id)
            },
            payload@.len() > 0 && (parse_welcome(payload@) matches Some(m) && !group_ids(
                old(self).groups.groups@,
            ).contains(m.group_id) && find_issued(old(self).mls_client.issued@, m.target_ref)
                is None) ==> r == Err::<JoinOutcome, EngineError>(EngineError::ForeignWelcome),
            payload@.len() > 0 && (parse_welcome(payload@) matches Some(m) && group_ids(
                old(self).groups.groups@,
            ).contains(m.group_id)) ==> r == Err::<JoinOutcome, EngineError>(
                EngineError::DuplicateSession,
            ),
            payload@.len() > 0 && (parse_welcome(payload@) matches Some(m) && !group_ids(
                old(self).groups.groups@,
            ).contains(m.group_id) && (find_issued(old(self).mls_client.issued@, m.target_ref)
                matches Some(sk) && !(kem_opened(sk, m.kem_output, m.sealed_secret) matches Some(p)
                && p.len() == 32))) ==> r == Err::<JoinOutcome, EngineError>(
                EngineError::WelcomeParse,
            ),
            payload@.len() > 0 && (parse_welcome(payload@) matches Some(m) && !group_ids(
                old(self).groups.groups@,
            ).contains(m.group_id) && (find_issued(old(self).mls_client.issued@, m.target_ref)
                matches Some(sk) && (kem_opened(sk, m.kem_output, m.sealed_secret) matches Some(p)
                && p.len() == 32))) ==> r == Ok::<JoinOutcome, EngineError>(JoinOutcome::Joined),
    {
        if payload.len() == 0 {
            let mut status = String::from_str("Group ");
            status.append(group_id);
            status.append(" not found or access denied");
            self.status_message = status;
            return Ok(JoinOutcome::NotFound);
        }
        let welcome = match decode_welcome(payload) {
            Ok(w) => w,
            Err(e) => {
                return Err(e);
            },
        };
        match self.groups.find_index(welcome.group_id.as_str()) {
            Some(i) => {
                proof {
                    assert(group_ids(self.groups.groups@)[i as int] == welcome.group_id@);
                }
                return Err(EngineError::DuplicateSession);
            },
            None => {},
        }
        let session = match self.mls_client.join_group(provider, &welcome) {
            Ok(s) => s,
            Err(e) => {
                return Err(e);
            },
        };
        let id = welcome.group_id.clone();
        let group = Group { id, name: welcome.group_id.clone(), session };
        match self.groups.put(group) {
            Ok(()) => {},
            Err(_) => {
                proof {
                    assert(false);
                }
                return Err(EngineError::DuplicateSession);
            },
        }
        self.active_group = Some(welcome.group_id.clone());
        let mut status = String::from_str("Successfully joined group: ");
        status.append(welcome.group_id.as_str());
        self.status_message = status;
        Ok(JoinOutcome::Joined)
    }

    /// Record a message locally and, when connected, frame its
    /// envelope for the service.
    ///
    /// The sender's copy is appended to the group's transcript
    /// whatever the connectivity: local-first availability over
    /// delivery.  A registered, active group with sequence numbers
    /// left owes the send for every text within the cipher's length
    /// bound.  A session that has exhausted its sequence numbers is
    /// terminated rather than ever reusing a nonce, and no failure
    /// touches anything beyond the addressed session.
    #[verifier::rlimit(100)]
    #[verifier::spinoff_prover]
    pub fn send_message(&mut self, provider: &CryptoProvider, group_id: &str, text: &str, now: u64)
        -> (r: Result<SendOutcome, EngineError>)
        requires
            old(self).sessions_wf(),
        ensures
            final(self).sessions_wf(),
            final(self).config == old(self).config,
            final(self).mls_client == old(self).mls_client,
            final(self).network_client == old(self).network_client,
            final(self).active_group == old(self).active_group,
            group_ids(final(self).groups.groups@) == group_ids(old(self).groups.groups@),
            !group_ids(old(self).groups.groups@).contains(group_id@) ==> (r matches Ok(out)
                && out is NoSuchGroup) && *final(self) == *old(self),
            r matches Ok(out) ==> (group_ids(old(self).groups.groups@).contains(group_id@)
                ==> !(out is NoSuchGroup)),
            r matches Ok(out) ==> out is NoSuchGroup || exists|i: int|
                #[trigger] sent_at(*old(self), *final(self), i, out, group_id@, text@, now),
            r matches Ok(out) ==> (out is NoSuchGroup || (out is Local <==> !old(self).network_client.connected)),
            r matches Err(e) ==> (e == EngineError::SessionTerminated || e
                == EngineError::CryptoProvider),
            r == Err::<SendOutcome, EngineError>(EngineError::CryptoProvider) ==> final(self).groups.groups@ == old(self).groups.groups@ && final(self).status_message == old(self).status_message,
            ({
                let fi = first_group_index(old(self).groups.groups@, group_id@);
                let s0 = old(self).groups.groups@[fi].session;
                &&& (r == Err::<SendOutcome, EngineError>(EngineError::SessionTerminated)
                    <==> group_ids(old(self).groups.groups@).contains(group_id@) && (!s0.active
                    || s0.message_seq == u64::MAX))
                &&& (r == Err::<SendOutcome, EngineError>(EngineError::SessionTerminated)
                    && !s0.active ==> *final(self) == *old(self))
                &&& (r == Err::<SendOutcome, EngineError>(EngineError::SessionTerminated)
                    && s0.active ==> {
                    &&& final(self).groups.groups@ == old(self).groups.groups@.update(
                        fi,
                        final(self).groups.groups@[fi],
                    )
                    &&& final(self).groups.groups@[fi].id == old(self).groups.groups@[fi].id
                    &&& final(self).groups.groups@[fi].name == old(self).groups.groups@[fi].name
                    &&& !final(self).groups.groups@[fi].session.active
                    &&& final(self).groups.groups@[fi].session.transcript == s0.transcript
                    &&& final(self).groups.groups@[fi].session.epoch == s0.epoch
                    &&& final(self).status_message == old(self).status_message
                })
                &&& (group_ids(old(self).groups.groups@).contains(group_id@) && s0.active
                    && s0.message_seq < u64::MAX && encode_utf8(text@).len()
                    <= AEAD_PLAINTEXT_MAX ==> r is Ok)
            }),
    {
        let i = match self.groups.find_index(group_id) {
            Some(i) => i,
            None => {
                return Ok(SendOutcome::NoSuchGroup);
            },
        };
        proof {
            assert(group_ids(self.groups.groups@)[i as int] == group_id@);
        }
        if !self.groups.groups[i].session.active {
            return Err(EngineError::SessionTerminated);
        }
        if self.groups.groups[i].session.message_seq == u64::MAX {
            let g = &mut self.groups.groups[i];
            g.session.leave();
            proof {
                assert(group_ids(self.groups.groups@) =~= group_ids(old(self).groups.groups@));
            }
            return Err(EngineError::SessionTerminated);
        }
        let gname = self.groups.groups[i].name.clone();
        let enc = {
            let g = &mut self.groups.groups[i];
            g.session.encrypt(provider, text.as_bytes())
        };
        let ct = match enc {
            Ok(v) => v,
            Err(e) => {
                proof {
                    assert(self.groups.groups@ =~= old(self).groups.groups@);
                }
                return Err(e);
            },
        };
        let g = &mut self.groups.groups[i];
        let mut id = String::from_str("m");
        push_u64_dec(&mut id, g.session.transcript.len() as u64);
        proof {
            reveal_strlit("m");
            assert("m"@ =~= seq!['m']);
        }
        let msg = Message {
            id,
            sender: self.config.username.clone(),
            content: text.to_owned(),
            timestamp: now,
            group_id: group_id.to_owned(),
        };
        match g.session.record_message(msg) {
            Ok(()) => {},
            Err(_) => {
                proof {
                    assert(false);
                }
                return Err(EngineError::SessionTerminated);
            },
        }
        let ct_bytes = encode_cipher_message(&ct);
        let mut status = String::from_str("Message sent to ");
        status.append(gname.as_str());
        self.status_message = status;
        let out = if self.network_client.is_connected() {
            let env = NetworkMessage {
                message_type: String::from_str("message"),
                sender: self.config.username.clone(),
                recipient: None,
                group_id: Some(group_id.to_owned()),
                content: ct_bytes,
                timestamp: now,
            };
            let line = match self.network_client.send_message(&env) {
                Ok(l) => l,
                Err(_) => {
                    proof {
                        assert(false);
                    }
                    return Err(EngineError::CryptoProvider);
                },
            };
            SendOutcome::Sent(line)
        } else {
            SendOutcome::Local
        };
        proof {
            let wi = i as int;
            let s0 = old(self).groups.groups@[wi].session;
            let s1 = self.groups.groups@[wi].session;
            assert(self.groups.groups@ =~= old(self).groups.groups@.update(
                wi,
                self.groups.groups@[wi],
            ));
            assert(s1.transcript@.take(s0.transcript@.len() as int) =~= s0.transcript@);
            assert(group_ids(self.groups.groups@) =~= group_ids(old(self).groups.groups@));
            assert(sent_at(*old(self), *self, wi, out, group_id@, text@, now));
        }
        Ok(out)
    }

    /// Fold a received ciphertext into the owning session.
    ///
    /// The envelope's content must parse as a ciphertext of the
    /// addressed, registered group and decrypt under the current
    /// epoch; the recovered text is then appended to the transcript
    /// in receipt order.  On any failure the coordinator is left
    /// exactly as it was: a bad ciphertext never corrupts state.
    #[verifier::rlimit(100)]
    #[verifier::spinoff_prover]
    pub fn receive_message(
        &mut self,
        provider: &CryptoProvider,
        group_id: &str,
        sender: &str,
        content: &[u8],
        now: u64,
    ) -> (r: Result<(), EngineError>)
        requires
            old(self).sessions_wf(),
        ensures
            final(self).sessions_wf(),
            group_ids(final(self).groups.groups@) == group_ids(old(self).groups.groups@),
            r matches Err(e) ==> *final(self) == *old(self) && (e == EngineError::DecryptFailure
                || e == EngineError::SessionTerminated),
            parse_cipher(content@) is None ==> r == Err::<(), EngineError>(
                EngineError::DecryptFailure,
            ),
            !group_ids(old(self).groups.groups@).contains(group_id@) ==> r == Err::<
                (),
                EngineError,
            >(EngineError::DecryptFailure),
            ({
                let fi = first_group_index(old(self).groups.groups@, group_id@);
                let s0 = old(self).groups.groups@[fi].session;
                group_ids(old(self).groups.groups@).contains(group_id@) && (parse_cipher(content@)
                    matches Some(c) && decrypt_model_v(s0, c.0, c.1, c.2) matches Ok(pt)
                    && valid_utf8(pt)) ==> r is Ok
            }),
            r is Ok ==> exists|i: int|
                #[trigger] received_at(
                    *old(self),
                    *final(self),
                    i,
                    group_id@,
                    sender@,
                    content@,
                    now,
                ),
    {
        let cm = match decode_cipher_message(content) {
            Ok(v) => v,
            Err(e) => {
                return Err(e);
            },
        };
        let i = match self.groups.find_index(group_id) {
            Some(i) => i,
            None => {
                return Err(EngineError::DecryptFailure);
            },
        };
        proof {
            assert(group_ids(self.groups.groups@)[i as int] == group_id@);
        }
        let pt = match self.groups.groups[i].session.decrypt(provider, &cm) {
            Ok(p) => p,
            Err(e) => {
                return Err(e);
            },
        };
        let text = match bytes_to_string(pt) {
            Some(t) => t,
            None => {
                return Err(EngineError::DecryptFailure);
            },
        };
        let mut id = String::from_str("r");
        push_u64_dec(&mut id, self.groups.groups[i].session.transcript.len() as u64);
        proof {
            reveal_strlit("r");
            assert("r"@ =~= seq!['r']);
        }
        let msg = Message {
            id,
            sender: sender.to_owned(),
            content: text,
            timestamp: now,
            group_id: group_id.to_owned(),
        };
        let g = &mut self.groups.groups[i];
        match g.session.record_message(msg) {
            Ok(()) => {},
            Err(_) => {
                proof {
                    assert(false);
                }
                return Err(EngineError::SessionTerminated);
            },
        }
        proof {
            let wi = i as int;
            let s0 = old(self).groups.groups@[wi].session;
            let s1 = self.groups.groups@[wi].session;
            assert(self.groups.groups@ =~= old(self).groups.groups@.update(
                wi,
                self.groups.groups@[wi],
            ));
            assert(s1.transcript@.take(s0.transcript@.len() as int) =~= s0.transcript@);
            assert(group_ids(self.groups.groups@) =~= group_ids(old(self).groups.groups@));
            assert(received_at(*old(self), *self, wi, group_id@, sender@, content@, now));
        }
        Ok(())
    }

    /// Record that the framed publication of a created group could
    /// not be delivered: the group stays registered and usable
    /// (local-first, no rollback), and the status becomes a warning
    /// naming the group and the failure.
    pub fn publish_failed(&mut self, group_id: &str)
        ensures
            final(self).config == old(self).config,
            final(self).mls_client == old(self).mls_client,
            final(self).network_client == old(self).network_client,
            final(self).groups == old(self).groups,
            final(self).active_group == old(self).active_group,
            final(self).status_message@ == publish_failed_status(group_id@),
    {
        let mut status = String::from_str("Created group: ");
        status.append(group_id);
        status.append(", but failed to publish to the delivery service");
        self.status_message = status;
    }

    /// The locally registered group identifiers.
    pub fn list_groups_local(&self) -> (r: Vec<String>)
        ensures
            names_of(r@) == group_ids(self.groups.groups@),
    {
        let mut out: Vec<String> = Vec::new();
        let mut i: usize = 0;
        while i < self.groups.groups.len()
            invariant
                i <= self.groups.groups@.len(),
                names_of(out@) == group_ids(self.groups.groups@.take(i as int)),
            decreases self.groups.groups@.len() - i,
        {
            let ghost prev = out@;
            out.push(self.groups.groups[i].id.clone());
            i = i + 1;
            proof {
                assert(names_of(out@) =~= names_of(prev).push(
                    self.groups.groups@[i - 1].id@,
                ));
                assert(group_ids(self.groups.groups@.take(i as int)) =~= group_ids(
                    self.groups.groups@.take(i - 1),
                ).push(self.groups.groups@[i - 1].id@));
            }
        }
        proof {
            assert(self.groups.groups@.take(self.groups.groups@.len() as int)
                =~= self.groups.groups@);
        }
        out
    }

    /// Report connectivity and the number of registered groups in the
    /// status line.
    pub fn report_status(&mut self)
        ensures
            final(self).config == old(self).config,
            final(self).mls_client == old(self).mls_client,
            final(self).network_client == old(self).network_client,
            final(self).groups == old(self).groups,
            final(self).active_group == old(self).active_group,
            final(self).status_message@ == connectivity_status(
                old(self).network_client.connected,
                old(self).config.delivery_service_address@,
                old(self).groups.groups@.len() as int,
            ),
    {
        if self.network_client.is_connected() {
            let mut status = String::from_str("Connected to MLS service at ");
            status.append(self.config.delivery_service_address.as_str());
            status.append(". ");
            push_u64_dec(&mut status, self.groups.groups.len() as u64);
            status.append(" groups available.");
            self.status_message = status;
        } else {
            let mut status = String::from_str("Disconnected from MLS service at ");
            status.append(self.config.delivery_service_address.as_str());
            status.append(". Groups will be local only.");
            self.status_message = status;
        }
    }

    /// Apply new settings.  The protocol client is torn down and
    /// replaced (disconnected) when the address changed; re-dialing
    /// is the caller's explicit follow-up.  Says whether the address
    /// changed.
    pub fn save_settings(&mut self, new_address: &str, new_username: &str) -> (changed: bool)
        ensures
            final(self).config.username@ == new_username@,
            final(self).config.delivery_service_address@ == new_address@,
            changed == (old(self).config.delivery_service_address@ != new_address@),
            changed ==> final(self).network_client.delivery_service_address@ == new_address@
                && !final(self).network_client.connected,
            !changed ==> final(self).network_client == old(self).network_client,
            final(self).groups == old(self).groups,
            final(self).mls_client == old(self).mls_client,
            final(self).active_group == old(self).active_group,
            final(self).status_message@ == "Settings saved"@,
    {
        let changed = !crate::codec::str_eq(
            self.config.delivery_service_address.as_str(),
            new_address,
        );
        self.config.username = new_username.to_owned();
        self.config.delivery_service_address = new_address.to_owned();
        if changed {
            self.network_client = crate::network::NetworkClient::new(new_address);
        }
        self.status_message = String::from_str("Settings saved");
        changed
    }
}

} // verus!
