use modality_ctf::error::Error;
use modality_ctf::event::FieldToAttrKeysGen;
use modality_ctf::types::{Interruptor, RetryDurationUs, SessionNotFoundAction};

#[test]
fn interruptor_starts_unset_and_latches() {
    let intr = Interruptor::new();
    assert!(!intr.is_set());
    let other = intr.clone();
    other.set();
    assert!(intr.is_set());
}

#[test]
fn retry_duration_defaults_to_one_hundred_milliseconds() {
    assert_eq!(RetryDurationUs::default(), RetryDurationUs(100000));
}

#[test]
fn invalid_prefix_error_variant_and_message() {
    let e = match FieldToAttrKeysGen::new(".bad", false, false) {
        Err(e) => e,
        Ok(_) => panic!("a prefix starting with '.' must be rejected"),
    };
    assert_eq!(e, Error::InvalidAttrKeyPrefix);
    assert_eq!(
        e.message(),
        "Event attribute key prefix cannot start or end with the reserved delimeter '.' character"
    );
    // A bare "." both starts and ends with the delimiter.
    assert!(FieldToAttrKeysGen::new(".", true, true).is_err());
    // An empty prefix is allowed.
    assert!(FieldToAttrKeysGen::new("", true, true).is_ok());
}

#[test]
fn session_not_found_action_defaults_to_continue() {
    assert_eq!(
        SessionNotFoundAction::default(),
        SessionNotFoundAction::Continue
    );
}
