use mls_engine::crypto::CryptoProvider;
use mls_engine::errors::EngineError;
use mls_engine::mls_client::MlsClient;
use mls_engine::session::{CipherMessage, Commit};

const NOT_AFTER: u64 = 1_000_000;
const NOW: u64 = 1_000;

fn client(name: &str) -> (CryptoProvider, MlsClient) {
    let provider = CryptoProvider::new();
    let c = MlsClient::new(name, &provider, NOT_AFTER).expect("identity");
    (provider, c)
}

#[test]
fn create_group_starts_at_epoch_zero() {
    let (provider, alice) = client("alice");
    let session = alice.create_group(&provider, "team").expect("create");
    assert_eq!(session.epoch, 0);
    assert!(session.active);
    assert_eq!(session.roster.len(), 1);
    assert_eq!(session.roster[0], "alice");
    assert!(session.transcript.is_empty());
}

#[test]
fn commit_advances_epoch_by_exactly_one() {
    let (provider, alice) = client("alice");
    let mut session = alice.create_group(&provider, "team").expect("create");
    let out = session.commit(&provider).expect("commit");
    assert_eq!(session.epoch, 1);
    assert_eq!(out.commit.new_epoch, 1);
    let out2 = session.commit(&provider).expect("commit");
    assert_eq!(session.epoch, 2);
    assert_eq!(out2.commit.new_epoch, 2);
}

#[test]
fn commit_with_one_add_produces_one_welcome() {
    // One Add bundled: exactly one welcome, addressed to the added
    // key package; epoch becomes 1; roster grows by exactly 1.
    let (provider, alice) = client("alice");
    let (_bp, bob) = client("bob");
    let mut session = alice.create_group(&provider, "team").expect("create");
    let bob_kp = bob.get_key_package().duplicate();
    let bob_ref = bob_kp.nonce.clone();
    session.propose_add(&provider, bob_kp, NOW).expect("propose");
    let out = session.commit(&provider).expect("commit");
    assert_eq!(out.welcomes.len(), 1);
    assert_eq!(out.welcomes[0].target_ref, bob_ref);
    assert_eq!(out.welcomes[0].epoch, 1);
    assert_eq!(session.epoch, 1);
    assert_eq!(session.roster.len(), 2);
    assert_eq!(session.roster[1], "bob");
}

#[test]
fn welcome_joins_and_messages_flow_both_ways() {
    let (provider, alice) = client("alice");
    let (bob_provider, bob) = client("bob");
    let mut a_session = alice.create_group(&provider, "team").expect("create");
    a_session
        .propose_add(&provider, bob.get_key_package().duplicate(), NOW)
        .expect("propose");
    let out = a_session.commit(&provider).expect("commit");
    let mut b_session = bob
        .join_group(&bob_provider, &out.welcomes[0])
        .expect("join");
    assert_eq!(b_session.epoch, 1);
    assert_eq!(b_session.roster, vec!["alice".to_string(), "bob".to_string()]);

    // Alice -> Bob under epoch 1.
    let ct = a_session.encrypt(&provider, b"hello bob").expect("encrypt");
    let pt = b_session.decrypt(&bob_provider, &ct).expect("decrypt");
    assert_eq!(pt, b"hello bob".to_vec());

    // A further commit applied by Bob keeps the secrets in step.
    let out2 = a_session.commit(&provider).expect("commit");
    b_session
        .apply_commit(&bob_provider, &out2.commit)
        .expect("apply");
    assert_eq!(b_session.epoch, 2);
    let ct2 = b_session.encrypt(&bob_provider, b"hello alice").expect("encrypt");
    let pt2 = a_session.decrypt(&provider, &ct2).expect("decrypt");
    assert_eq!(pt2, b"hello alice".to_vec());
}

#[test]
fn duplicate_commit_is_noop_stale_commit_rejected() {
    let (provider, alice) = client("alice");
    let (bob_provider, bob) = client("bob");
    let mut a_session = alice.create_group(&provider, "team").expect("create");
    a_session
        .propose_add(&provider, bob.get_key_package().duplicate(), NOW)
        .expect("propose");
    let out = a_session.commit(&provider).expect("commit");
    let mut b_session = bob
        .join_group(&bob_provider, &out.welcomes[0])
        .expect("join");

    let out2 = a_session.commit(&provider).expect("commit");
    b_session
        .apply_commit(&bob_provider, &out2.commit)
        .expect("apply");
    assert_eq!(b_session.epoch, 2);

    // Duplicate delivery of the same commit: a no-op.
    b_session
        .apply_commit(&bob_provider, &out2.commit)
        .expect("duplicate is a no-op");
    assert_eq!(b_session.epoch, 2);

    // A different commit targeting an epoch at or behind: stale.
    let stale = Commit {
        group_id: "team".to_string(),
        new_epoch: 1,
        adds: Vec::new(),
        commit_id: vec![9u8; 16],
    };
    assert_eq!(
        b_session.apply_commit(&bob_provider, &stale),
        Err(EngineError::StaleCommit)
    );
    assert_eq!(b_session.epoch, 2);

    // A commit from a later epoch cannot apply to this history.
    let future = Commit {
        group_id: "team".to_string(),
        new_epoch: 9,
        adds: Vec::new(),
        commit_id: vec![7u8; 16],
    };
    assert_eq!(
        b_session.apply_commit(&bob_provider, &future),
        Err(EngineError::CommitRace)
    );

    // A commit for another group cannot apply either.
    let wrong_group = Commit {
        group_id: "other".to_string(),
        new_epoch: 3,
        adds: Vec::new(),
        commit_id: vec![7u8; 16],
    };
    assert_eq!(
        b_session.apply_commit(&bob_provider, &wrong_group),
        Err(EngineError::CommitRace)
    );
}

#[test]
fn foreign_welcome_always_rejected() {
    // A welcome processed by a client that never issued the targeted
    // key package fails with the foreign-welcome error.
    let (provider, alice) = client("alice");
    let (bob_provider, bob) = client("bob");
    let (carol_provider, carol) = client("carol");
    let _ = bob_provider;
    let mut a_session = alice.create_group(&provider, "team").expect("create");
    a_session
        .propose_add(&provider, bob.get_key_package().duplicate(), NOW)
        .expect("propose");
    let out = a_session.commit(&provider).expect("commit");
    // The welcome is addressed to Bob; Carol never issued that package.
    assert_eq!(
        carol.join_group(&carol_provider, &out.welcomes[0]).err(),
        Some(EngineError::ForeignWelcome)
    );
}

#[test]
fn decrypt_round_trip_same_epoch() {
    let (provider, alice) = client("alice");
    let mut session = alice.create_group(&provider, "team").expect("create");
    let ct = session.encrypt(&provider, b"exact bytes \x00\x01").expect("encrypt");
    let pt = session.decrypt(&provider, &ct).expect("decrypt");
    assert_eq!(pt, b"exact bytes \x00\x01".to_vec());
}

#[test]
fn decrypt_under_later_epoch_fails() {
    let (provider, alice) = client("alice");
    let mut session = alice.create_group(&provider, "team").expect("create");
    let ct = session.encrypt(&provider, b"epoch zero").expect("encrypt");
    session.commit(&provider).expect("commit");
    assert_eq!(session.epoch, 1);
    assert_eq!(
        session.decrypt(&provider, &ct),
        Err(EngineError::DecryptFailure)
    );
}

#[test]
fn decrypt_rejects_tampered_ciphertext() {
    let (provider, alice) = client("alice");
    let mut session = alice.create_group(&provider, "team").expect("create");
    let ct = session.encrypt(&provider, b"authentic").expect("encrypt");
    let mut body = ct.body.clone();
    body[0] ^= 0x5a;
    let tampered = CipherMessage { epoch: ct.epoch, seq: ct.seq, body };
    assert_eq!(
        session.decrypt(&provider, &tampered),
        Err(EngineError::DecryptFailure)
    );
}

#[test]
fn propose_add_validations() {
    let (provider, alice) = client("alice");
    let (_bp, bob) = client("bob");
    let mut session = alice.create_group(&provider, "team").expect("create");

    // Tampered signature: invalid.
    let mut bad = bob.get_key_package().duplicate();
    let n = bad.signature.len();
    bad.signature[n - 1] ^= 1;
    assert_eq!(
        session.propose_add(&provider, bad, NOW),
        Err(EngineError::InvalidKeyPackage)
    );

    // Expired package: rejected for staleness.
    let expired = bob.get_key_package().duplicate();
    assert_eq!(
        session.propose_add(&provider, expired, NOT_AFTER + 1),
        Err(EngineError::ExpiredKeyPackage)
    );

    // A valid package is accepted once...
    session
        .propose_add(&provider, bob.get_key_package().duplicate(), NOW)
        .expect("valid package");
    // ... and its replay is rejected.
    assert_eq!(
        session.propose_add(&provider, bob.get_key_package().duplicate(), NOW),
        Err(EngineError::InvalidKeyPackage)
    );

    // An identity already in the roster cannot be added again.
    let mut alice2 = MlsClient::new("alice", &provider, NOT_AFTER).expect("identity");
    alice2.issue_key_package(&provider, NOT_AFTER).expect("issue");
    assert_eq!(
        session.propose_add(&provider, alice2.get_key_package().duplicate(), NOW),
        Err(EngineError::InvalidKeyPackage)
    );
}

#[test]
fn consumed_key_package_replay_rejected_after_commit() {
    let (provider, alice) = client("alice");
    let (_bp, bob) = client("bob");
    let mut session = alice.create_group(&provider, "team").expect("create");
    session
        .propose_add(&provider, bob.get_key_package().duplicate(), NOW)
        .expect("propose");
    session.commit(&provider).expect("commit");
    // The same package is consumed now; replaying it must fail.
    assert_eq!(
        session.propose_add(&provider, bob.get_key_package().duplicate(), NOW),
        Err(EngineError::InvalidKeyPackage)
    );
}

#[test]
fn terminated_session_accepts_no_operations() {
    let (provider, alice) = client("alice");
    let mut session = alice.create_group(&provider, "team").expect("create");
    session.leave();
    assert!(!session.active);
    assert_eq!(
        session.encrypt(&provider, b"x").err(),
        Some(EngineError::SessionTerminated)
    );
    assert_eq!(session.commit(&provider).err(), Some(EngineError::SessionTerminated));
    let ct = CipherMessage { epoch: 0, seq: 0, body: vec![1, 2, 3] };
    assert_eq!(
        session.decrypt(&provider, &ct),
        Err(EngineError::SessionTerminated)
    );
}

#[test]
fn issued_key_packages_are_distinguishable() {
    let provider = CryptoProvider::new();
    let mut c = MlsClient::new("alice", &provider, NOT_AFTER).expect("identity");
    let first = c.get_key_package().duplicate();
    c.issue_key_package(&provider, NOT_AFTER).expect("issue");
    let second = c.get_key_package().duplicate();
    assert_ne!(first.nonce, second.nonce);
    assert_ne!(first.init_key, second.init_key);
    assert_eq!(c.get_identity().as_str(), "alice");
}
