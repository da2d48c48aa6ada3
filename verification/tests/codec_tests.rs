use mls_engine::codec::{
    decode_cipher_message, decode_welcome, encode_cipher_message, encode_welcome,
};
use mls_engine::errors::EngineError;
use mls_engine::session::{CipherMessage, Welcome};

fn sample_welcome() -> Welcome {
    Welcome {
        group_id: "team".to_string(),
        epoch: 7,
        target_ref: vec![1, 2, 3, 4],
        kem_output: vec![9; 32],
        sealed_secret: vec![8; 48],
        roster: vec!["alice".to_string(), "bob".to_string()],
    }
}

#[test]
fn welcome_round_trips_exactly() {
    let w = sample_welcome();
    let bytes = encode_welcome(&w);
    let back = decode_welcome(&bytes).expect("decode");
    assert_eq!(back.group_id, w.group_id);
    assert_eq!(back.epoch, w.epoch);
    assert_eq!(back.target_ref, w.target_ref);
    assert_eq!(back.kem_output, w.kem_output);
    assert_eq!(back.sealed_secret, w.sealed_secret);
    assert_eq!(back.roster, w.roster);
}

#[test]
fn welcome_with_empty_roster_round_trips() {
    let mut w = sample_welcome();
    w.roster = Vec::new();
    let bytes = encode_welcome(&w);
    let back = decode_welcome(&bytes).expect("decode");
    assert_eq!(back.roster, Vec::<String>::new());
}

#[test]
fn truncated_welcome_fails_to_parse() {
    let w = sample_welcome();
    let bytes = encode_welcome(&w);
    for cut in [0, 1, 7, 8, bytes.len() - 1] {
        assert_eq!(
            decode_welcome(&bytes[..cut]).err(),
            Some(EngineError::WelcomeParse),
            "prefix of {} bytes must not parse",
            cut
        );
    }
}

#[test]
fn welcome_with_trailing_bytes_fails_to_parse() {
    let w = sample_welcome();
    let mut bytes = encode_welcome(&w);
    bytes.push(0);
    assert_eq!(decode_welcome(&bytes).err(), Some(EngineError::WelcomeParse));
}

#[test]
fn garbage_welcome_fails_to_parse() {
    assert_eq!(
        decode_welcome(b"not a welcome").err(),
        Some(EngineError::WelcomeParse)
    );
}

#[test]
fn cipher_message_round_trips_exactly() {
    let cm = CipherMessage { epoch: 3, seq: 41, body: vec![250, 0, 17] };
    let bytes = encode_cipher_message(&cm);
    let back = decode_cipher_message(&bytes).expect("decode");
    assert_eq!(back.epoch, 3);
    assert_eq!(back.seq, 41);
    assert_eq!(back.body, vec![250, 0, 17]);
}

#[test]
fn truncated_cipher_message_fails() {
    let cm = CipherMessage { epoch: 3, seq: 41, body: vec![250, 0, 17] };
    let bytes = encode_cipher_message(&cm);
    assert_eq!(
        decode_cipher_message(&bytes[..bytes.len() - 1]).err(),
        Some(EngineError::DecryptFailure)
    );
    assert_eq!(
        decode_cipher_message(b"").err(),
        Some(EngineError::DecryptFailure)
    );
}
