//! The revalidation pass: re-checking already-active codes for drift.
//!
//! On a slower cadence every currently-active code is validated again.  An
//! outcome that marks the code dead (expired, invalid, usage exhausted)
//! asks the caller for one targeted update flipping the stored flag to
//! false; a cooldown or an unrecognised status leaves the stored state
//! untouched.  A credential failure aborts the remaining pass, exactly as
//! it does during discovery.
//!
//! The caller is expected to wait [`REVALIDATION_DELAY_SECS`] between
//! consecutive oracle calls.

use crate::record::{views, CodeView, RedemptionCode};
use crate::validation::{
    outcome_active, outcome_is_fatal, spec_is_fatal, spec_outcome_active, CredentialError,
    ValidationResult,
};
use vstd::prelude::*;

verus! {

/// Seconds a caller waits after each revalidation oracle call.
pub const REVALIDATION_DELAY_SECS: u64 = 15;

/// What a revalidation outcome asks the caller to do for one code.
pub enum RevalidateAction {
    /// Flip the stored active flag of this code to false, touching
    /// nothing else.
    Deactivate(String),
    /// Leave the stored state of this code as it is.
    KeepUnchanged,
}

/// What a revalidation pass asks its caller to do next.
pub enum RevalidateStep {
    /// Validate this code against the oracle and report the outcome.
    Validate(String),
    /// Every active code was re-checked; the pass is over.
    Done,
    /// The pass was aborted by a credential failure; nothing more happens.
    Aborted,
}

/// One revalidation pass over the codes that were active when it started.
pub struct Revalidator {
    codes: Vec<RedemptionCode>,
    idx: usize,
    aborted: bool,
}

impl Revalidator {
    /// The active records the pass was started with.
    pub closed spec fn codes_view(self) -> Seq<CodeView> {
        views(self.codes@)
    }

    /// How many codes were handled already.
    pub closed spec fn position(self) -> int {
        self.idx as int
    }

    /// Whether a credential failure ended the pass.
    pub closed spec fn is_aborted(self) -> bool {
        self.aborted
    }

    /// The position never passes the end of the code list.
    pub open spec fn wf(self) -> bool {
        0 <= self.position() <= self.codes_view().len()
    }

    /// Starts a pass over the currently-active records.
    pub fn new(active_codes: Vec<RedemptionCode>) -> (r: Revalidator)
        ensures
            r.wf(),
            !r.is_aborted(),
            r.position() == 0,
            r.codes_view() == views(active_codes@),
    {
        Revalidator { codes: active_codes, idx: 0, aborted: false }
    }

    /// Which code to validate next, if any.  After an abort no code is
    /// ever handed out again.
    pub fn next_step(&self) -> (step: RevalidateStep)
        requires
            self.wf(),
        ensures
            step is Aborted <==> self.is_aborted(),
            match step {
                RevalidateStep::Validate(c) => {
                    &&& !self.is_aborted()
                    &&& self.position() < self.codes_view().len()
                    &&& c@ == self.codes_view()[self.position()].code
                },
                RevalidateStep::Done => {
                    &&& !self.is_aborted()
                    &&& self.position() == self.codes_view().len()
                },
                RevalidateStep::Aborted => self.is_aborted(),
            },
    {
        if self.aborted {
            RevalidateStep::Aborted
        } else if self.idx < self.codes.len() {
            RevalidateStep::Validate(self.codes[self.idx].code.clone())
        } else {
            RevalidateStep::Done
        }
    }

    /// Records the oracle's verdict for the code under revalidation.  An
    /// outcome that marks the code dead yields a targeted deactivation of
    /// exactly that code; an outcome that keeps it alive yields no write.
    /// A credential failure aborts the remaining pass.
    pub fn apply_outcome(&mut self, outcome: ValidationResult) -> (r: Result<
        RevalidateAction,
        CredentialError,
    >)
        requires
            old(self).wf(),
            !old(self).is_aborted(),
            old(self).position() < old(self).codes_view().len(),
        ensures
            final(self).wf(),
            final(self).codes_view() == old(self).codes_view(),
            if spec_is_fatal(outcome) {
                &&& r is Err
                &&& final(self).is_aborted()
                &&& final(self).position() == old(self).position()
            } else {
                &&& !final(self).is_aborted()
                &&& final(self).position() == old(self).position() + 1
                &&& if spec_outcome_active(outcome) {
                    r == Result::<RevalidateAction, CredentialError>::Ok(
                        RevalidateAction::KeepUnchanged,
                    )
                } else {
                    r matches Ok(RevalidateAction::Deactivate(c)) && c@ == old(
                        self,
                    ).codes_view()[old(self).position()].code
                }
            },
    {
        if outcome_is_fatal(&outcome) {
            self.aborted = true;
            Err(CredentialError)
        } else {
            let i = self.idx;
            proof {
                assert(self.codes@.len() == self.codes.len());
            }
            self.idx = i + 1;
            if outcome_active(&outcome) {
                Ok(RevalidateAction::KeepUnchanged)
            } else {
                Ok(RevalidateAction::Deactivate(self.codes[i].code.clone()))
            }
        }
    }

    /// Records that the oracle could not be reached for the code under
    /// revalidation: the stored state stays untouched and the pass moves
    /// on.
    pub fn apply_transport_failure(&mut self)
        requires
            old(self).wf(),
            !old(self).is_aborted(),
            old(self).position() < old(self).codes_view().len(),
        ensures
            final(self).wf(),
            final(self).codes_view() == old(self).codes_view(),
            !final(self).is_aborted(),
            final(self).position() == old(self).position() + 1,
    {
        let i = self.idx;
        proof {
            assert(self.codes@.len() == self.codes.len());
        }
        self.idx = i + 1;
    }
}

} // verus!
