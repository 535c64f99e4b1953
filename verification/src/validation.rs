//! Mapping of validation-oracle replies to outcomes.
//!
//! The external oracle answers each redemption attempt with a numeric status
//! and a message.  This module fixes, once and for all, how a status is
//! classified, whether the resulting outcome counts the code as active, and
//! which outcome is fatal for the whole run.

use vstd::prelude::*;

verus! {

/// Oracle status meaning the code was redeemed successfully.
pub const STATUS_SUCCESS: i32 = 0;

/// Oracle status meaning this account already redeemed the code.
pub const STATUS_ALREADY_REDEEMED: i32 = -2017;

/// Alternative oracle status for an already redeemed code.
pub const STATUS_ALREADY_REDEEMED_ALT: i32 = -2018;

/// Oracle status meaning the code has expired.
pub const STATUS_EXPIRED: i32 = -2001;

/// Oracle status meaning the code does not exist.
pub const STATUS_INVALID: i32 = -2003;

/// Oracle status meaning the code reached its global usage limit.
pub const STATUS_MAX_USAGE: i32 = -2006;

/// Oracle status meaning the account must wait before redeeming again.
pub const STATUS_COOLDOWN: i32 = -2016;

/// Oracle status meaning the configured account session is unusable.
pub const STATUS_INVALID_CREDENTIALS: i32 = -1071;

/// The outcome of validating one code against the external oracle.
pub enum ValidationResult {
    Valid,
    AlreadyRedeemed,
    Expired,
    Invalid,
    MaxUsageReached,
    Cooldown,
    InvalidCredentials,
    Unknown(i32, String),
}

/// How a numeric oracle status is classified.
pub open spec fn spec_classify(retcode: i32, message: String) -> ValidationResult {
    if retcode == STATUS_SUCCESS {
        ValidationResult::Valid
    } else if retcode == STATUS_ALREADY_REDEEMED || retcode == STATUS_ALREADY_REDEEMED_ALT {
        ValidationResult::AlreadyRedeemed
    } else if retcode == STATUS_EXPIRED {
        ValidationResult::Expired
    } else if retcode == STATUS_INVALID {
        ValidationResult::Invalid
    } else if retcode == STATUS_MAX_USAGE {
        ValidationResult::MaxUsageReached
    } else if retcode == STATUS_COOLDOWN {
        ValidationResult::Cooldown
    } else if retcode == STATUS_INVALID_CREDENTIALS {
        ValidationResult::InvalidCredentials
    } else {
        ValidationResult::Unknown(retcode, message)
    }
}

/// Whether an outcome aborts the whole run.  Only an unusable account
/// session is fatal; every other reply concerns a single code.
pub open spec fn spec_is_fatal(outcome: ValidationResult) -> bool {
    outcome is InvalidCredentials
}

/// The active flag a non-fatal outcome assigns to a code.  Unrecognised
/// statuses and cooldowns are counted as active on purpose: the service
/// prefers showing a possibly dead code over dropping a live one.
pub open spec fn spec_outcome_active(outcome: ValidationResult) -> bool {
    match outcome {
        ValidationResult::Valid => true,
        ValidationResult::AlreadyRedeemed => true,
        ValidationResult::Expired => false,
        ValidationResult::Invalid => false,
        ValidationResult::MaxUsageReached => false,
        ValidationResult::Cooldown => true,
        ValidationResult::InvalidCredentials => false,
        ValidationResult::Unknown(_, _) => true,
    }
}

/// Classifies a raw oracle reply into a [`ValidationResult`].
pub fn classify_retcode(retcode: i32, message: String) -> (outcome: ValidationResult)
    ensures
        outcome == spec_classify(retcode, message),
{
    if retcode == STATUS_SUCCESS {
        ValidationResult::Valid
    } else if retcode == STATUS_ALREADY_REDEEMED || retcode == STATUS_ALREADY_REDEEMED_ALT {
        ValidationResult::AlreadyRedeemed
    } else if retcode == STATUS_EXPIRED {
        ValidationResult::Expired
    } else if retcode == STATUS_INVALID {
        ValidationResult::Invalid
    } else if retcode == STATUS_MAX_USAGE {
        ValidationResult::MaxUsageReached
    } else if retcode == STATUS_COOLDOWN {
        ValidationResult::Cooldown
    } else if retcode == STATUS_INVALID_CREDENTIALS {
        ValidationResult::InvalidCredentials
    } else {
        ValidationResult::Unknown(retcode, message)
    }
}

/// Whether this outcome aborts the run.
pub fn outcome_is_fatal(outcome: &ValidationResult) -> (fatal: bool)
    ensures
        fatal == spec_is_fatal(*outcome),
{
    match outcome {
        ValidationResult::InvalidCredentials => true,
        _ => false,
    }
}

/// The active flag a non-fatal outcome assigns to a code.
pub fn outcome_active(outcome: &ValidationResult) -> (active: bool)
    ensures
        active == spec_outcome_active(*outcome),
{
    match outcome {
        ValidationResult::Valid => true,
        ValidationResult::AlreadyRedeemed => true,
        ValidationResult::Expired => false,
        ValidationResult::Invalid => false,
        ValidationResult::MaxUsageReached => false,
        ValidationResult::Cooldown => true,
        ValidationResult::InvalidCredentials => false,
        ValidationResult::Unknown(_, _) => true,
    }
}

/// Exactly the credential status aborts a run; every other status is
/// handled per code, and marks it active unless the oracle positively
/// declared it dead (expired, nonexistent, or at its usage limit).
pub proof fn lemma_outcome_mapping(retcode: i32, message: String)
    ensures
        spec_is_fatal(spec_classify(retcode, message)) <==> retcode == STATUS_INVALID_CREDENTIALS,
        retcode != STATUS_INVALID_CREDENTIALS ==> (spec_outcome_active(
            spec_classify(retcode, message),
        ) <==> !(retcode == STATUS_EXPIRED || retcode == STATUS_INVALID || retcode
            == STATUS_MAX_USAGE)),
{
}

/// Error raised when the oracle reports that the configured account
/// credentials are no longer usable; it aborts the run that saw it.
#[derive(Clone, Copy, PartialEq, Eq, Structural, Debug)]
pub struct CredentialError;

} // verus!
