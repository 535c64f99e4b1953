use starrail_codes::validation::{
    classify_retcode, outcome_active, outcome_is_fatal, ValidationResult,
};

fn classify(retcode: i32) -> ValidationResult {
    classify_retcode(retcode, String::from("msg"))
}

#[test]
fn test_status_success_is_valid_and_active() {
    let outcome = classify(0);
    assert!(matches!(outcome, ValidationResult::Valid));
    assert!(outcome_active(&outcome));
    assert!(!outcome_is_fatal(&outcome));
}

#[test]
fn test_status_already_redeemed_is_active() {
    let outcome = classify(-2017);
    assert!(matches!(outcome, ValidationResult::AlreadyRedeemed));
    assert!(outcome_active(&outcome));
    assert!(!outcome_is_fatal(&outcome));
}

#[test]
fn test_status_already_redeemed_alt_is_active() {
    let outcome = classify(-2018);
    assert!(matches!(outcome, ValidationResult::AlreadyRedeemed));
    assert!(outcome_active(&outcome));
    assert!(!outcome_is_fatal(&outcome));
}

#[test]
fn test_status_expired_is_inactive() {
    let outcome = classify(-2001);
    assert!(matches!(outcome, ValidationResult::Expired));
    assert!(!outcome_active(&outcome));
    assert!(!outcome_is_fatal(&outcome));
}

#[test]
fn test_status_invalid_is_inactive() {
    let outcome = classify(-2003);
    assert!(matches!(outcome, ValidationResult::Invalid));
    assert!(!outcome_active(&outcome));
    assert!(!outcome_is_fatal(&outcome));
}

#[test]
fn test_status_max_usage_is_inactive() {
    let outcome = classify(-2006);
    assert!(matches!(outcome, ValidationResult::MaxUsageReached));
    assert!(!outcome_active(&outcome));
    assert!(!outcome_is_fatal(&outcome));
}

#[test]
fn test_status_cooldown_is_active() {
    let outcome = classify(-2016);
    assert!(matches!(outcome, ValidationResult::Cooldown));
    assert!(outcome_active(&outcome));
    assert!(!outcome_is_fatal(&outcome));
}

#[test]
fn test_status_invalid_credentials_is_fatal() {
    let outcome = classify(-1071);
    assert!(matches!(outcome, ValidationResult::InvalidCredentials));
    assert!(outcome_is_fatal(&outcome));
}

#[test]
fn test_unknown_status_is_active_and_not_fatal() {
    let outcome = classify_retcode(12345, String::from("strange reply"));
    match &outcome {
        ValidationResult::Unknown(code, message) => {
            assert_eq!(*code, 12345);
            assert_eq!(message, "strange reply");
        }
        _ => panic!("expected an unknown outcome"),
    }
    assert!(outcome_active(&outcome));
    assert!(!outcome_is_fatal(&outcome));
}

#[test]
fn test_negative_unknown_status_is_active() {
    let outcome = classify(-9999);
    assert!(matches!(outcome, ValidationResult::Unknown(-9999, _)));
    assert!(outcome_active(&outcome));
    assert!(!outcome_is_fatal(&outcome));
}
