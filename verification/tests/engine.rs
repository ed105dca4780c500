use tuned_rs::engine::validate_profile_name;
use tuned_rs::hal::{is_allowed_epp, is_allowed_governor};

#[test]
fn validates_profile_names() {
    assert!(validate_profile_name("throughput-performance"));
    assert!(!validate_profile_name("../etc/passwd"));
}

#[test]
fn rejects_non_allowlisted_governors() {
    assert!(!is_allowed_governor("totally-made-up"));
    assert!(is_allowed_governor("schedutil"));
}

#[test]
fn profile_names_have_a_length_limit() {
    let longest = "a".repeat(64);
    let too_long = "a".repeat(65);
    assert!(validate_profile_name(&longest));
    assert!(!validate_profile_name(&too_long));
    assert!(!validate_profile_name(""));
    assert!(!validate_profile_name("with space"));
    assert!(!validate_profile_name("dotted.name"));
    assert!(validate_profile_name("under_score-1"));
}

#[test]
fn epp_allowlist() {
    assert!(is_allowed_epp("balance_power"));
    assert!(is_allowed_epp("default"));
    assert!(!is_allowed_epp("turbo"));
    assert!(!is_allowed_governor("Performance"));
}
