use mls_engine::client::{App, JoinOutcome, SendOutcome};
use mls_engine::codec::encode_cipher_message;
use mls_engine::codec::encode_welcome;
use mls_engine::config::Config;
use mls_engine::crypto::CryptoProvider;
use mls_engine::errors::EngineError;
use mls_engine::mls_client::MlsClient;
use mls_engine::network::NetworkClient;
use mls_engine::registry::{Group, Registry};

const NOT_AFTER: u64 = 1_000_000;
const NOW: u64 = 1_000;

fn app(name: &str, connected: bool) -> (CryptoProvider, App) {
    let provider = CryptoProvider::new();
    let mls_client = MlsClient::new(name, &provider, NOT_AFTER).expect("identity");
    let mut network_client = NetworkClient::new("127.0.0.1:8080");
    if connected {
        network_client.connect(true, name);
    }
    let config = Config {
        username: name.to_string(),
        delivery_service_address: "127.0.0.1:8080".to_string(),
    };
    (provider, App::new(config, mls_client, network_client))
}

#[test]
fn greeting_reflects_connectivity() {
    let (_p, offline) = app("alice", false);
    assert_eq!(
        offline.status_message,
        "Disconnected from MLS service at 127.0.0.1:8080. Groups will be local only."
    );
    let (_p2, online) = app("alice", true);
    assert_eq!(
        online.status_message,
        "Connected to MLS service at 127.0.0.1:8080. Groups will be synchronized."
    );
}

#[test]
fn disconnected_create_makes_a_local_group() {
    // Disconnected: the group is created locally, the local listing
    // shows it, and the status says the service is not connected.
    let (provider, mut app) = app("alice", false);
    let out = app.create_group(&provider, "team").expect("create");
    assert!(out.is_none());
    assert_eq!(app.list_groups_local(), vec!["team".to_string()]);
    assert_eq!(
        app.status_message,
        "Created local group: team - not connected to MLS service"
    );
    assert_eq!(app.active_group.as_deref(), Some("team"));
}

#[test]
fn connected_create_also_frames_the_publication() {
    let (provider, mut app) = app("alice", true);
    let out = app.create_group(&provider, "team").expect("create");
    let line = out.expect("published");
    assert_eq!(
        String::from_utf8(line).unwrap(),
        "{\"type\":\"create_group\",\"group_id\":\"team\",\"creator_id\":\"alice\",\"group_info\":\"dGVhbQ==\"}\n"
    );
    assert_eq!(app.status_message, "Created and published group: team");
}

#[test]
fn second_create_with_same_identifier_fails_locally() {
    // The second create with the same caller-chosen identifier fails
    // with the duplicate-group error before any network request.
    let (provider, mut app) = app("alice", true);
    app.create_group(&provider, "team").expect("first create");
    let before = app.list_groups_local();
    assert_eq!(
        app.create_group(&provider, "team").err(),
        Some(EngineError::DuplicateGroup)
    );
    assert_eq!(app.list_groups_local(), before);
}

#[test]
fn join_requires_the_service() {
    let (_provider, mut app) = app("bob", false);
    assert_eq!(
        app.join_group_request("team").err(),
        Some(EngineError::NotConnected)
    );
    assert_eq!(
        app.status_message,
        "Cannot join group team: not connected to the delivery service"
    );
}

#[test]
fn join_of_registered_group_fails_fast() {
    let (provider, mut app) = app("alice", true);
    app.create_group(&provider, "team").expect("create");
    assert_eq!(
        app.join_group_request("team").err(),
        Some(EngineError::DuplicateSession)
    );
    assert_eq!(app.status_message, "Already in group: team");
}

#[test]
fn empty_join_payload_means_not_found_and_creates_nothing() {
    // The service has no such group: empty payload, user-visible
    // not-found, no session created, registry unchanged.
    let (provider, mut app) = app("bob", true);
    let line = app.join_group_request("ghost-id").expect("request");
    assert!(!line.is_empty());
    let outcome = app
        .join_group_response(&provider, "ghost-id", &[])
        .expect("fold");
    assert_eq!(outcome, JoinOutcome::NotFound);
    assert!(app.list_groups_local().is_empty());
    assert_eq!(app.status_message, "Group ghost-id not found or access denied");
}

#[test]
fn malformed_join_payload_is_a_parse_error() {
    let (provider, mut app) = app("bob", true);
    assert_eq!(
        app.join_group_response(&provider, "team", b"not a welcome").err(),
        Some(EngineError::WelcomeParse)
    );
    assert!(app.list_groups_local().is_empty());
}

#[test]
fn welcome_payload_joins_the_group() {
    // Alice commits Bob's key package in; the resulting welcome,
    // relayed as bytes, gives Bob a session at the commit's epoch.
    let (alice_provider, alice) = {
        let provider = CryptoProvider::new();
        let c = MlsClient::new("alice", &provider, NOT_AFTER).expect("identity");
        (provider, c)
    };
    let (bob_provider, mut bob_app) = app("bob", true);
    let mut a_session = alice.create_group(&alice_provider, "team").expect("create");
    a_session
        .propose_add(
            &alice_provider,
            bob_app.mls_client.get_key_package().duplicate(),
            NOW,
        )
        .expect("propose");
    let out = a_session.commit(&alice_provider).expect("commit");
    let payload = encode_welcome(&out.welcomes[0]);
    let outcome = bob_app
        .join_group_response(&bob_provider, "team", &payload)
        .expect("join");
    assert_eq!(outcome, JoinOutcome::Joined);
    assert_eq!(bob_app.list_groups_local(), vec!["team".to_string()]);
    assert_eq!(bob_app.status_message, "Successfully joined group: team");
    assert_eq!(bob_app.groups.groups[0].session.epoch, 1);

    // A second copy of the same welcome is a duplicate join.
    assert_eq!(
        bob_app.join_group_response(&bob_provider, "team", &payload).err(),
        Some(EngineError::DuplicateSession)
    );

    // Cross-client traffic decrypts.
    let ct = a_session.encrypt(&alice_provider, b"hi bob").expect("encrypt");
    let content = encode_cipher_message(&ct);
    bob_app
        .receive_message(&bob_provider, "team", "alice", &content, NOW)
        .expect("receive");
    let transcript = bob_app.groups.groups[0].session.transcript.last().unwrap();
    assert_eq!(transcript.sender, "alice");
    assert_eq!(transcript.content, "hi bob");
}

#[test]
fn send_message_is_recorded_locally_first() {
    let (provider, mut app) = app("alice", false);
    app.create_group(&provider, "team").expect("create");
    let out = app
        .send_message(&provider, "team", "hello there", NOW)
        .expect("send");
    assert!(matches!(out, SendOutcome::Local));
    let transcript = &app.groups.groups[0].session.transcript;
    assert_eq!(transcript.len(), 1);
    assert_eq!(transcript[0].sender, "alice");
    assert_eq!(transcript[0].content, "hello there");
    assert_eq!(transcript[0].timestamp, NOW);
    assert_eq!(app.status_message, "Message sent to team");
}

#[test]
fn send_message_to_unknown_group_changes_nothing() {
    let (provider, mut app) = app("alice", false);
    let out = app.send_message(&provider, "ghost", "hi", NOW).expect("send");
    assert!(matches!(out, SendOutcome::NoSuchGroup));
}

#[test]
fn connected_send_also_frames_the_envelope() {
    let (provider, mut app) = app("alice", true);
    app.create_group(&provider, "team").expect("create");
    let out = app.send_message(&provider, "team", "hi", NOW).expect("send");
    match out {
        SendOutcome::Sent(line) => {
            let text = String::from_utf8(line).unwrap();
            assert!(text.starts_with("{\"type\":\"message\",\"sender\":\"alice\","));
            assert!(text.ends_with("}\n"));
        },
        _ => panic!("expected a framed envelope"),
    }
}

#[test]
fn transcript_keeps_receipt_order() {
    let (provider, mut app) = app("alice", false);
    app.create_group(&provider, "team").expect("create");
    app.send_message(&provider, "team", "first", NOW).expect("send");
    app.send_message(&provider, "team", "second", NOW + 1).expect("send");
    let transcript = &app.groups.groups[0].session.transcript;
    assert_eq!(transcript.len(), 2);
    assert_eq!(transcript[0].content, "first");
    assert_eq!(transcript[1].content, "second");
    assert_ne!(transcript[0].id, transcript[1].id);
}

#[test]
fn status_report_counts_groups() {
    let (provider, mut app) = app("alice", true);
    app.create_group(&provider, "team").expect("create");
    app.create_group(&provider, "ops").expect("create");
    app.report_status();
    assert_eq!(
        app.status_message,
        "Connected to MLS service at 127.0.0.1:8080. 2 groups available."
    );
}

#[test]
fn save_settings_replaces_the_client_on_address_change() {
    let (_provider, mut app) = app("alice", true);
    let changed = app.save_settings("10.0.0.1:9000", "alice2");
    assert!(changed);
    assert_eq!(app.config.username, "alice2");
    assert_eq!(app.config.delivery_service_address, "10.0.0.1:9000");
    assert!(!app.network_client.is_connected());
    assert_eq!(app.status_message, "Settings saved");
    let unchanged = app.save_settings("10.0.0.1:9000", "alice3");
    assert!(!unchanged);
}

#[test]
fn registry_put_get_remove() {
    let provider = CryptoProvider::new();
    let alice = MlsClient::new("alice", &provider, NOT_AFTER).expect("identity");
    let session = alice.create_group(&provider, "team").expect("create");
    let mut registry = Registry::new();
    assert!(registry.get("team").is_none());
    registry
        .put(Group { id: "team".to_string(), name: "team".to_string(), session })
        .expect("put");
    let entry = registry.get("team").expect("present");
    assert_eq!(entry.id, "team");
    assert!(entry.is_active());
    assert_eq!(entry.members(), &vec!["alice".to_string()]);

    let session2 = alice.create_group(&provider, "team").expect("create");
    assert_eq!(
        registry
            .put(Group { id: "team".to_string(), name: "again".to_string(), session: session2 })
            .err(),
        Some(EngineError::DuplicateGroup)
    );

    assert!(registry.remove("team"));
    assert!(!registry.remove("team"));
    assert!(registry.get("team").is_none());
}

#[test]
fn receive_rejects_garbage_and_unknown_groups() {
    let (provider, mut app) = app("alice", false);
    app.create_group(&provider, "team").expect("create");
    // Content that does not even frame as a ciphertext.
    assert_eq!(
        app.receive_message(&provider, "team", "bob", b"garbage", NOW).err(),
        Some(EngineError::DecryptFailure)
    );
    // A well-formed frame addressed to a group that is not registered.
    let cm = mls_engine::session::CipherMessage { epoch: 0, seq: 0, body: vec![1, 2, 3] };
    let content = encode_cipher_message(&cm);
    assert_eq!(
        app.receive_message(&provider, "ghost", "bob", &content, NOW).err(),
        Some(EngineError::DecryptFailure)
    );
    // Nothing was appended anywhere.
    assert!(app.groups.groups[0].session.transcript.is_empty());
}

#[test]
fn message_ids_stay_unique_across_commits() {
    // The counter-derived part of an id comes from the transcript
    // length, which never shrinks, while commits reset the cipher's
    // sequence numbers; ids must not repeat across epochs.
    let (provider, mut app) = app("alice", false);
    app.create_group(&provider, "team").expect("create");
    app.send_message(&provider, "team", "before", NOW).expect("send");
    app.groups.groups[0].session.commit(&provider).expect("commit");
    app.send_message(&provider, "team", "after", NOW + 1).expect("send");
    let transcript = &app.groups.groups[0].session.transcript;
    assert_eq!(transcript.len(), 2);
    assert_ne!(transcript[0].id, transcript[1].id);
    assert_eq!(transcript[0].id, "m0");
    assert_eq!(transcript[1].id, "m1");
}

#[test]
fn publish_failure_is_surfaced_as_a_warning() {
    let (provider, mut app) = app("alice", true);
    let out = app.create_group(&provider, "team").expect("create");
    assert!(out.is_some());
    // The shell could not deliver the framed publication.
    app.publish_failed("team");
    assert_eq!(
        app.status_message,
        "Created group: team, but failed to publish to the delivery service"
    );
    // The group stays registered and usable, local-first.
    assert_eq!(app.list_groups_local(), vec!["team".to_string()]);
    app.send_message(&provider, "team", "still works", NOW).expect("send");
}

#[test]
fn send_to_terminated_session_fails_without_side_effects() {
    let (provider, mut app) = app("alice", false);
    app.create_group(&provider, "team").expect("create");
    app.groups.groups[0].session.leave();
    let status_before = app.status_message.clone();
    assert_eq!(
        app.send_message(&provider, "team", "hi", NOW).err(),
        Some(EngineError::SessionTerminated)
    );
    assert_eq!(app.status_message, status_before);
    assert!(app.groups.groups[0].session.transcript.is_empty());
}
