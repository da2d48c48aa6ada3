use mls_engine::errors::EngineError;
use mls_engine::network::{NetworkClient, NetworkMessage};

#[test]
fn connect_success_hands_back_the_handshake_line() {
    let mut client = NetworkClient::new("127.0.0.1:8080");
    assert!(!client.is_connected());
    let line = client.connect(true, "mls-client").expect("handshake");
    assert!(client.is_connected());
    assert_eq!(
        line,
        b"{\"type\":\"list_key_packages\",\"client_id\":\"mls-client\"}\n".to_vec()
    );
}

#[test]
fn connect_failure_leaves_client_disconnected() {
    let mut client = NetworkClient::new("127.0.0.1:8080");
    let line = client.connect(false, "mls-client");
    assert!(line.is_none());
    assert!(!client.is_connected());
}

#[test]
fn requests_require_a_connection() {
    let client = NetworkClient::new("127.0.0.1:8080");
    assert_eq!(
        client.create_group("team", b"info", "alice").err(),
        Some(EngineError::NotConnected)
    );
    assert_eq!(
        client.join_group("team", b"kp", "alice").err(),
        Some(EngineError::NotConnected)
    );
    assert_eq!(
        client.list_groups("alice").err(),
        Some(EngineError::NotConnected)
    );
    assert_eq!(
        client.publish_key_package(b"kp").err(),
        Some(EngineError::NotConnected)
    );
    assert_eq!(
        client.fetch_key_packages("alice").err(),
        Some(EngineError::NotConnected)
    );
    assert_eq!(
        client.fetch_messages("team").err(),
        Some(EngineError::NotConnected)
    );
}

#[test]
fn create_group_line_is_exact_with_base64_info() {
    let mut client = NetworkClient::new("127.0.0.1:8080");
    client.connect(true, "alice");
    let line = client.create_group("team", b"team", "alice").expect("line");
    assert_eq!(
        String::from_utf8(line).unwrap(),
        "{\"type\":\"create_group\",\"group_id\":\"team\",\"creator_id\":\"alice\",\"group_info\":\"dGVhbQ==\"}\n"
    );
}

#[test]
fn join_group_line_is_exact_with_base64_key_package() {
    let mut client = NetworkClient::new("127.0.0.1:8080");
    client.connect(true, "bob");
    let line = client.join_group("team", &[0u8, 255u8, 16u8], "bob").expect("line");
    assert_eq!(
        String::from_utf8(line).unwrap(),
        "{\"type\":\"join_group\",\"group_id\":\"team\",\"client_id\":\"bob\",\"key_package\":\"AP8Q\"}\n"
    );
}

#[test]
fn list_groups_line_is_exact() {
    let mut client = NetworkClient::new("127.0.0.1:8080");
    client.connect(true, "alice");
    let line = client.list_groups("alice").expect("line");
    assert_eq!(
        String::from_utf8(line).unwrap(),
        "{\"type\":\"list_groups\",\"client_id\":\"alice\"}\n"
    );
}

#[test]
fn message_envelope_line_is_exact() {
    let mut client = NetworkClient::new("127.0.0.1:8080");
    client.connect(true, "alice");
    let envelope = NetworkMessage {
        message_type: "message".to_string(),
        sender: "alice".to_string(),
        recipient: None,
        group_id: Some("team".to_string()),
        content: vec![104, 105],
        timestamp: 1700000000,
    };
    let line = client.send_message(&envelope).expect("line");
    assert_eq!(
        String::from_utf8(line).unwrap(),
        "{\"type\":\"message\",\"sender\":\"alice\",\"recipient\":null,\"group_id\":\"team\",\"content\":\"aGk=\",\"timestamp\":1700000000}\n"
    );
}

#[test]
fn json_strings_are_escaped() {
    let mut client = NetworkClient::new("127.0.0.1:8080");
    client.connect(true, "alice");
    let line = client
        .create_group("a\"b\\c\nd", b"", "alice")
        .expect("line");
    assert_eq!(
        String::from_utf8(line).unwrap(),
        "{\"type\":\"create_group\",\"group_id\":\"a\\\"b\\\\c\\nd\",\"creator_id\":\"alice\",\"group_info\":\"\"}\n"
    );
}

#[test]
fn control_bytes_become_unicode_escapes() {
    let mut client = NetworkClient::new("127.0.0.1:8080");
    client.connect(true, "alice");
    let line = client.create_group("a\u{1}b", b"", "alice").expect("line");
    assert_eq!(
        String::from_utf8(line).unwrap(),
        "{\"type\":\"create_group\",\"group_id\":\"a\\u0001b\",\"creator_id\":\"alice\",\"group_info\":\"\"}\n"
    );
}
