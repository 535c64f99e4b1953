use starrail_codes::record::RedemptionCode;
use starrail_codes::revalidate::{RevalidateAction, RevalidateStep, Revalidator, REVALIDATION_DELAY_SECS};
use starrail_codes::validation::classify_retcode;

fn active_record(code: &str) -> RedemptionCode {
    RedemptionCode {
        code: code.to_string(),
        rewards: vec!["Jade".to_string()],
        source: "S".to_string(),
        active: true,
        date: Some(1),
    }
}

#[test]
fn test_expired_code_is_deactivated() {
    let mut pass = Revalidator::new(vec![active_record("A")]);
    match pass.next_step() {
        RevalidateStep::Validate(code) => assert_eq!(code, "A"),
        _ => panic!("expected the code to be re-checked"),
    }
    let action = pass.apply_outcome(classify_retcode(-2001, String::new())).unwrap();
    match action {
        RevalidateAction::Deactivate(code) => assert_eq!(code, "A"),
        _ => panic!("an expired code must be flipped to inactive"),
    }
    assert!(matches!(pass.next_step(), RevalidateStep::Done));
}

#[test]
fn test_valid_and_cooldown_leave_state_unchanged() {
    let mut pass = Revalidator::new(vec![active_record("A"), active_record("B")]);
    assert!(matches!(pass.next_step(), RevalidateStep::Validate(_)));
    let action = pass.apply_outcome(classify_retcode(0, String::new())).unwrap();
    assert!(matches!(action, RevalidateAction::KeepUnchanged));
    assert!(matches!(pass.next_step(), RevalidateStep::Validate(_)));
    let action = pass.apply_outcome(classify_retcode(-2016, String::new())).unwrap();
    assert!(matches!(action, RevalidateAction::KeepUnchanged));
    assert!(matches!(pass.next_step(), RevalidateStep::Done));
}

#[test]
fn test_credential_failure_aborts_remaining_pass() {
    let mut pass = Revalidator::new(vec![active_record("A"), active_record("B")]);
    assert!(matches!(pass.next_step(), RevalidateStep::Validate(_)));
    let fatal = pass.apply_outcome(classify_retcode(-1071, String::new()));
    assert!(fatal.is_err());
    assert!(matches!(pass.next_step(), RevalidateStep::Aborted));
}

#[test]
fn test_unreachable_oracle_skips_the_code() {
    let mut pass = Revalidator::new(vec![active_record("A")]);
    assert!(matches!(pass.next_step(), RevalidateStep::Validate(_)));
    pass.apply_transport_failure();
    assert!(matches!(pass.next_step(), RevalidateStep::Done));
}

#[test]
fn test_max_usage_deactivates() {
    let mut pass = Revalidator::new(vec![active_record("A")]);
    assert!(matches!(pass.next_step(), RevalidateStep::Validate(_)));
    let action = pass.apply_outcome(classify_retcode(-2006, String::new())).unwrap();
    assert!(matches!(action, RevalidateAction::Deactivate(_)));
}

#[test]
fn test_revalidation_delay_is_fifteen_seconds() {
    assert_eq!(REVALIDATION_DELAY_SECS, 15);
}
