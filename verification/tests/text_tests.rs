use mls_engine::errors::EngineError;
use mls_engine::ui::{format_file_size, truncate_text};

#[test]
fn truncate_keeps_short_text() {
    assert_eq!(truncate_text("hello", 10), "hello");
    assert_eq!(truncate_text("hello", 5), "hello");
    assert_eq!(truncate_text("", 0), "");
}

#[test]
fn truncate_cuts_long_text_with_ellipsis() {
    assert_eq!(truncate_text("hello world", 8), "hello...");
    assert_eq!(truncate_text("abcdef", 5), "ab...");
    assert_eq!(truncate_text("abcdef", 3), "...");
}

#[test]
fn truncate_with_tiny_width_keeps_only_the_ellipsis() {
    assert_eq!(truncate_text("abcdef", 2), "...");
    assert_eq!(truncate_text("abcdef", 0), "...");
}

#[test]
fn file_sizes_below_one_kilobyte_are_bytes() {
    assert_eq!(format_file_size(0), "0 B");
    assert_eq!(format_file_size(512), "512 B");
    assert_eq!(format_file_size(1023), "1023 B");
}

#[test]
fn file_sizes_scale_by_powers_of_1024() {
    assert_eq!(format_file_size(1024), "1.0 KB");
    assert_eq!(format_file_size(1536), "1.5 KB");
    assert_eq!(format_file_size(2048), "2.0 KB");
    assert_eq!(format_file_size(1048576), "1.0 MB");
    assert_eq!(format_file_size(1073741824), "1.0 GB");
    assert_eq!(format_file_size(1099511627776), "1.0 TB");
    assert_eq!(format_file_size(1572864), "1.5 MB");
}

#[test]
fn every_error_has_a_distinct_description() {
    let errors = [
        EngineError::CryptoProvider,
        EngineError::InvalidKeyPackage,
        EngineError::ExpiredKeyPackage,
        EngineError::StaleCommit,
        EngineError::CommitRace,
        EngineError::ForeignWelcome,
        EngineError::DuplicateSession,
        EngineError::NotConnected,
        EngineError::WelcomeParse,
        EngineError::DecryptFailure,
        EngineError::DuplicateGroup,
        EngineError::SessionTerminated,
    ];
    let texts: Vec<String> = errors.iter().map(|e| e.describe()).collect();
    for (i, a) in texts.iter().enumerate() {
        assert!(!a.is_empty());
        for (j, b) in texts.iter().enumerate() {
            if i != j {
                assert_ne!(a, b);
            }
        }
    }
    assert_eq!(
        EngineError::NotConnected.describe(),
        "not connected to the delivery service"
    );
    assert_eq!(
        EngineError::ForeignWelcome.describe(),
        "welcome targets a key package this client did not issue"
    );
}
