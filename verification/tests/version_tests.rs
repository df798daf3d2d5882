use trokk::version::{
    evaluate_desktop_version_gate, evaluate_startup_version_policy, parse_version,
    StartupVersionStatus,
};

#[test]
fn test_startup_version_policy_major_update_is_blocking() {
    let policy = evaluate_startup_version_policy("0.1.0", "1.0.0").unwrap();
    assert_eq!(policy.status, StartupVersionStatus::MajorBlocking);
    assert!(!policy.auto_login_allowed);
    assert!(policy.startup_version_message.is_some());
    assert!(policy
        .startup_version_message
        .unwrap()
        .contains("Ny hovedversjon er tilgjengelig"));
}

#[test]
fn test_startup_version_policy_minor_update_is_blocking() {
    let policy = evaluate_startup_version_policy("0.1.0", "0.2.0").unwrap();
    assert_eq!(policy.status, StartupVersionStatus::MinorBlocking);
    assert!(!policy.auto_login_allowed);
    assert!(policy.startup_version_message.is_some());
    assert!(policy
        .startup_version_message
        .unwrap()
        .contains("Ny delversjon er tilgjengelig"));
}

#[test]
fn test_startup_version_policy_patch_update_requires_manual_login() {
    let policy = evaluate_startup_version_policy("0.1.0", "0.1.1").unwrap();
    assert_eq!(policy.status, StartupVersionStatus::PatchAvailable);
    assert!(!policy.auto_login_allowed);
    assert!(policy.startup_version_message.is_some());
    assert!(policy
        .startup_version_message
        .unwrap()
        .contains("Du må logge inn manuelt"));
}

#[test]
fn test_desktop_version_gate_major_update_is_blocking() {
    let result = evaluate_desktop_version_gate("0.1.0", "1.0.0").unwrap();
    assert_eq!(result.status, StartupVersionStatus::MajorBlocking);
    assert!(result.is_blocking);
    assert!(!result.is_patch);
    assert!(result
        .message
        .unwrap()
        .contains("Ny hovedversjon er tilgjengelig"));
}

#[test]
fn test_desktop_version_gate_minor_update_is_blocking() {
    let result = evaluate_desktop_version_gate("0.1.0", "0.2.0").unwrap();
    assert_eq!(result.status, StartupVersionStatus::MinorBlocking);
    assert!(result.is_blocking);
    assert!(!result.is_patch);
    assert!(result
        .message
        .unwrap()
        .contains("Ny delversjon er tilgjengelig"));
}

#[test]
fn test_desktop_version_gate_patch_update_is_not_blocking() {
    let result = evaluate_desktop_version_gate("0.1.0", "0.1.1").unwrap();
    assert_eq!(result.status, StartupVersionStatus::PatchAvailable);
    assert!(!result.is_blocking);
    assert!(result.is_patch);
    assert!(result
        .message
        .unwrap()
        .contains("Ny patch-versjon er tilgjengelig"));
}

#[test]
fn test_version_up_to_date_allows_auto_login() {
    let policy = evaluate_startup_version_policy("1.2.3", "1.2.3").unwrap();
    assert_eq!(policy.status, StartupVersionStatus::UpToDate);
    assert!(policy.auto_login_allowed);
    assert!(policy.startup_version_message.is_none());
}

#[test]
fn test_version_downgrade_counts_as_up_to_date() {
    let policy = evaluate_startup_version_policy("2.0.0", "1.9.9").unwrap();
    assert_eq!(policy.status, StartupVersionStatus::UpToDate);
    assert!(policy.auto_login_allowed);
}

#[test]
fn test_parse_version_accepts_dotted_triples() {
    assert_eq!(parse_version("1.22.333"), Some((1, 22, 333)));
    assert_eq!(parse_version("0.0.0"), Some((0, 0, 0)));
}

#[test]
fn test_parse_version_rejects_malformed_strings() {
    assert_eq!(parse_version(""), None);
    assert_eq!(parse_version("1.2"), None);
    assert_eq!(parse_version("1.2.x"), None);
    assert_eq!(parse_version("1..2"), None);
    assert_eq!(parse_version("1.2.3.4"), None);
    assert_eq!(parse_version("99999999999.0.0"), None);
}

#[test]
fn test_invalid_version_yields_error() {
    let err = evaluate_startup_version_policy("not-a-version", "1.0.0").unwrap_err();
    assert_eq!(err, "Ugyldig versjonsnummer");
}
