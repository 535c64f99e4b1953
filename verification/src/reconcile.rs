//! The reconciliation run: merging fresh candidates with persisted truth.
//!
//! A run starts from the known state read from the store (code to active
//! flag) and the deduplicated candidate list.  Codes already known keep the
//! persisted active flag — a fresh scrape never overrides a verdict.  Codes
//! never seen before must be validated against the external oracle, one at
//! a time; the caller performs each oracle call and hands the outcome back.
//! A credential failure aborts the whole run: no further code is examined.
//! At the end the run emits a persistence plan in which an already-known
//! code only refreshes its rewards and source, while a new code is inserted
//! whole; the discovery date is stamped by the store on insert and never
//! written again.
//!
//! The caller is expected to wait [`DISCOVERY_VALIDATION_DELAY_SECS`]
//! between consecutive oracle calls to stay under the oracle's abuse
//! threshold; validation calls are strictly sequential by construction.

use crate::aggregate::{dedup_model, has_code, lemma_dedup_same_codes, unique_codes};
use crate::record::{views, CodeView, RedemptionCode};
use crate::validation::{
    outcome_active, outcome_is_fatal, spec_is_fatal, spec_outcome_active, CredentialError,
    ValidationResult,
};
use vstd::prelude::*;

verus! {

/// Seconds a caller waits after each discovery-time validation call.
pub const DISCOVERY_VALIDATION_DELAY_SECS: u64 = 6;

/// One entry of the known-state map: a persisted code and its verdict.
pub struct KnownCode {
    pub code: String,
    pub active: bool,
}

/// The persisted active flag for `c`, if the store knows the code.
pub open spec fn stored_active(known: Seq<KnownCode>, c: Seq<char>) -> Option<bool>
    decreases known.len(),
{
    if known.len() == 0 {
        None
    } else if known[0].code@ == c {
        Some(known[0].active)
    } else {
        stored_active(known.drop_first(), c)
    }
}

/// Looks up the persisted active flag for `code`.
pub fn lookup_known(known: &Vec<KnownCode>, code: &String) -> (r: Option<bool>)
    ensures
        r == stored_active(known@, code@),
{
    let mut k: usize = 0;
    proof {
        assert(known@.skip(0) =~= known@);
    }
    while k < known.len()
        invariant
            k <= known@.len(),
            stored_active(known@, code@) == stored_active(known@.skip(k as int), code@),
        decreases known@.len() - k,
    {
        proof {
            assert(known@.skip(k as int)[0] == known@[k as int]);
            assert(known@.skip(k as int).drop_first() =~= known@.skip(k + 1));
        }
        if known[k].code.eq(code) {
            return Some(known[k].active);
        }
        k = k + 1;
    }
    None
}

/// Builds the known-state map from the persisted records, actives first.
pub fn known_from_records(active: &Vec<RedemptionCode>, inactive: &Vec<RedemptionCode>) -> (known:
    Vec<KnownCode>)
    ensures
        known@.len() == active@.len() + inactive@.len(),
        forall|i: int|
            0 <= i < active@.len() ==> (#[trigger] known@[i]).code@ == active@[i]@.code
                && known@[i].active,
        forall|i: int|
            0 <= i < inactive@.len() ==> (#[trigger] known@[active@.len() + i]).code@
                == inactive@[i]@.code && !known@[active@.len() + i].active,
{
    let mut known: Vec<KnownCode> = Vec::new();
    let mut i: usize = 0;
    while i < active.len()
        invariant
            i <= active@.len(),
            known@.len() == i,
            forall|j: int|
                0 <= j < i ==> (#[trigger] known@[j]).code@ == active@[j]@.code
                    && known@[j].active,
        decreases active@.len() - i,
    {
        known.push(KnownCode { code: active[i].code.clone(), active: true });
        i = i + 1;
    }
    let mut i: usize = 0;
    while i < inactive.len()
        invariant
            i <= inactive@.len(),
            known@.len() == active@.len() + i,
            forall|j: int|
                0 <= j < active@.len() ==> (#[trigger] known@[j]).code@ == active@[j]@.code
                    && known@[j].active,
            forall|j: int|
                0 <= j < i ==> (#[trigger] known@[active@.len() + j]).code@ == inactive@[j]@.code
                    && !known@[active@.len() + j].active,
        decreases inactive@.len() - i,
    {
        known.push(KnownCode { code: inactive[i].code.clone(), active: false });
        i = i + 1;
    }
    known
}

/// `after` is `before` with its active flag taken from the store.
pub open spec fn decided_from_store(known: Seq<KnownCode>, before: CodeView, after: CodeView) -> bool {
    &&& stored_active(known, before.code) == Some(after.active)
    &&& after == before.with_active(after.active)
}

/// What a reconciliation run asks its caller to do next.
pub enum ReconcileStep {
    /// Validate this code against the oracle and report the outcome.
    Validate(String),
    /// Every candidate is decided; fetch the persistence plan.
    Persist,
    /// The run was aborted by a credential failure; nothing more happens.
    Aborted,
}

/// One write of the persistence plan.  A known code only refreshes its
/// rewards and source: the variant carries no active flag and no date, so
/// a reconciliation cannot overwrite either.  A new code is inserted whole
/// and the store stamps its discovery date at that moment.
pub enum UpsertAction {
    Refresh { code: String, rewards: Vec<String>, source: String },
    Insert { code: String, rewards: Vec<String>, source: String, active: bool },
}

/// The mathematical view of an [`UpsertAction`].
pub enum UpsertView {
    Refresh { code: Seq<char>, rewards: Seq<Seq<char>>, source: Seq<char> },
    Insert { code: Seq<char>, rewards: Seq<Seq<char>>, source: Seq<char>, active: bool },
}

impl View for UpsertAction {
    type V = UpsertView;

    open spec fn view(&self) -> UpsertView {
        match self {
            UpsertAction::Refresh { code, rewards, source } => UpsertView::Refresh {
                code: code@,
                rewards: rewards.deep_view(),
                source: source@,
            },
            UpsertAction::Insert { code, rewards, source, active } => UpsertView::Insert {
                code: code@,
                rewards: rewards.deep_view(),
                source: source@,
                active: *active,
            },
        }
    }
}

/// The views of a sequence of upsert actions, in order.
pub open spec fn upsert_views(s: Seq<UpsertAction>) -> Seq<UpsertView> {
    s.map_values(|a: UpsertAction| a@)
}

/// The write owed for one decided record.
pub open spec fn upsert_for(known: Seq<KnownCode>, r: CodeView) -> UpsertView {
    if stored_active(known, r.code) is Some {
        UpsertView::Refresh { code: r.code, rewards: r.rewards, source: r.source }
    } else {
        UpsertView::Insert { code: r.code, rewards: r.rewards, source: r.source, active: r.active }
    }
}

/// The whole persistence plan: one write per decided record, in order.
pub open spec fn plan_model(known: Seq<KnownCode>, recs: Seq<CodeView>) -> Seq<UpsertView> {
    recs.map_values(|r: CodeView| upsert_for(known, r))
}

/// One reconciliation run over a fixed known state and candidate list.
pub struct Reconciler {
    known: Vec<KnownCode>,
    records: Vec<RedemptionCode>,
    idx: usize,
    aborted: bool,
}

impl Reconciler {
    /// The known state the run was started with.
    pub closed spec fn known_view(self) -> Seq<KnownCode> {
        self.known@
    }

    /// The deduplicated candidate records, as decided so far.
    pub closed spec fn pending_view(self) -> Seq<CodeView> {
        views(self.records@)
    }

    /// How many candidates are decided already.
    pub closed spec fn position(self) -> int {
        self.idx as int
    }

    /// Whether a credential failure ended the run.
    pub closed spec fn is_aborted(self) -> bool {
        self.aborted
    }

    /// The position never passes the end of the candidate list.
    pub open spec fn wf(self) -> bool {
        0 <= self.position() <= self.pending_view().len()
    }

    /// Starts a run: deduplicates the candidates and decides nothing yet.
    pub fn new(known: Vec<KnownCode>, candidates: Vec<RedemptionCode>) -> (r: Reconciler)
        ensures
            r.wf(),
            !r.is_aborted(),
            r.position() == 0,
            r.known_view() == known@,
            r.pending_view() == dedup_model(views(candidates@)),
            unique_codes(r.pending_view()),
    {
        let records = crate::aggregate::dedup_codes(candidates);
        Reconciler { known, records, idx: 0, aborted: false }
    }

    /// Decides candidates in order until one needs the oracle.  A known
    /// code takes the persisted active flag — never the scraped one — and
    /// needs no oracle call.  The first unknown code is handed back for
    /// validation; after an abort no code is ever handed back again.
    #[verifier::loop_isolation(false)]
    pub fn advance(&mut self) -> (step: ReconcileStep)
        requires
            old(self).wf(),
        ensures
            final(self).wf(),
            final(self).known_view() == old(self).known_view(),
            final(self).is_aborted() == old(self).is_aborted(),
            final(self).pending_view().len() == old(self).pending_view().len(),
            old(self).position() <= final(self).position(),
            forall|j: int|
                0 <= j < old(self).position()
                    ==> final(self).pending_view()[j] == old(self).pending_view()[j],
            forall|j: int|
                final(self).position() <= j < old(self).pending_view().len()
                    ==> final(self).pending_view()[j] == old(self).pending_view()[j],
            forall|j: int|
                old(self).position() <= j < final(self).position() ==> decided_from_store(
                    old(self).known_view(),
                    old(self).pending_view()[j],
                    final(self).pending_view()[j],
                ),
            step is Aborted <==> old(self).is_aborted(),
            match step {
                ReconcileStep::Validate(c) => {
                    &&& !final(self).is_aborted()
                    &&& final(self).position() < final(self).pending_view().len()
                    &&& c@ == final(self).pending_view()[final(self).position()].code
                    &&& stored_active(final(self).known_view(), c@) is None
                },
                ReconcileStep::Persist => {
                    &&& !final(self).is_aborted()
                    &&& final(self).position() == final(self).pending_view().len()
                },
                ReconcileStep::Aborted => *final(self) == *old(self),
            },
    {
        if self.aborted {
            return ReconcileStep::Aborted;
        }
        let ghost orig = *self;
        while self.idx < self.records.len()
            invariant
                !self.aborted,
                !orig.aborted,
                self.known == orig.known,
                self.records@.len() == orig.records@.len(),
                orig.idx <= self.idx <= self.records@.len(),
                orig.wf(),
                forall|j: int|
                    0 <= j < orig.idx ==> views(self.records@)[j] == views(orig.records@)[j],
                forall|j: int|
                    self.idx <= j < self.records@.len() ==> views(self.records@)[j] == views(
                        orig.records@,
                    )[j],
                forall|j: int|
                    orig.idx <= j < self.idx ==> decided_from_store(
                        orig.known@,
                        views(orig.records@)[j],
                        views(self.records@)[j],
                    ),
            decreases self.records@.len() - self.idx,
        {
            let i = self.idx;
            let stored = lookup_known(&self.known, &self.records[i].code);
            match stored {
                Some(a) => {
                    let ghost before = views(self.records@);
                    let mut rec = self.records.remove(i);
                    rec.active = a;
                    self.records.insert(i, rec);
                    proof {
                        assert(views(self.records@) =~= before.update(
                            i as int,
                            before[i as int].with_active(a),
                        ));
                    }
                    self.idx = i + 1;
                },
                None => {
                    return ReconcileStep::Validate(self.records[i].code.clone());
                },
            }
        }
        ReconcileStep::Persist
    }

    /// Records the oracle's verdict for the candidate under validation.
    /// A credential failure aborts the run and leaves every record as it
    /// was; any other outcome sets the candidate's active flag as the
    /// outcome table prescribes and moves on to the next candidate.
    pub fn apply_outcome(&mut self, outcome: ValidationResult) -> (r: Result<(), CredentialError>)
        requires
            old(self).wf(),
            !old(self).is_aborted(),
            old(self).position() < old(self).pending_view().len(),
        ensures
            final(self).wf(),
            final(self).known_view() == old(self).known_view(),
            final(self).pending_view().len() == old(self).pending_view().len(),
            if spec_is_fatal(outcome) {
                &&& r is Err
                &&& final(self).is_aborted()
                &&& final(self).position() == old(self).position()
                &&& final(self).pending_view() == old(self).pending_view()
            } else {
                &&& r is Ok
                &&& !final(self).is_aborted()
                &&& final(self).position() == old(self).position() + 1
                &&& final(self).pending_view() == old(self).pending_view().update(
                    old(self).position(),
                    old(self).pending_view()[old(self).position()].with_active(
                        spec_outcome_active(outcome),
                    ),
                )
            },
    {
        if outcome_is_fatal(&outcome) {
            self.aborted = true;
            Err(CredentialError)
        } else {
            let a = outcome_active(&outcome);
            let i = self.idx;
            let ghost before = views(self.records@);
            let mut rec = self.records.remove(i);
            rec.active = a;
            self.records.insert(i, rec);
            proof {
                assert(views(self.records@) =~= before.update(
                    i as int,
                    before[i as int].with_active(a),
                ));
                assert(self.records@.len() == self.records.len());
            }
            self.idx = i + 1;
            Ok(())
        }
    }

    /// Records that the oracle could not be reached for the candidate
    /// under validation.  The pipeline fails open: the candidate counts as
    /// active rather than being dropped, and the run continues.
    pub fn apply_transport_failure(&mut self)
        requires
            old(self).wf(),
            !old(self).is_aborted(),
            old(self).position() < old(self).pending_view().len(),
        ensures
            final(self).wf(),
            final(self).known_view() == old(self).known_view(),
            !final(self).is_aborted(),
            final(self).position() == old(self).position() + 1,
            final(self).pending_view() == old(self).pending_view().update(
                old(self).position(),
                old(self).pending_view()[old(self).position()].with_active(true),
            ),
    {
        let i = self.idx;
        let ghost before = views(self.records@);
        let mut rec = self.records.remove(i);
        rec.active = true;
        self.records.insert(i, rec);
        proof {
            assert(views(self.records@) =~= before.update(
                i as int,
                before[i as int].with_active(true),
            ));
            assert(self.records@.len() == self.records.len());
        }
        self.idx = i + 1;
    }

    /// Emits the writes owed for the fully decided run, in order: one
    /// rewards-and-source refresh per known code, one whole insert per new
    /// code.
    pub fn persistence_plan(&self) -> (plan: Vec<UpsertAction>)
        requires
            self.wf(),
            !self.is_aborted(),
            self.position() == self.pending_view().len(),
        ensures
            upsert_views(plan@) == plan_model(self.known_view(), self.pending_view()),
    {
        let mut plan: Vec<UpsertAction> = Vec::new();
        let mut i: usize = 0;
        while i < self.records.len()
            invariant
                i <= self.records@.len(),
                plan@.len() == i,
                forall|j: int|
                    0 <= j < i ==> upsert_views(plan@)[j] == upsert_for(
                        self.known@,
                        views(self.records@)[j],
                    ),
            decreases self.records@.len() - i,
        {
            let r = &self.records[i];
            let stored = lookup_known(&self.known, &r.code);
            let action = match stored {
                Some(_) => UpsertAction::Refresh {
                    code: r.code.clone(),
                    rewards: crate::record::clone_strings(&r.rewards),
                    source: r.source.clone(),
                },
                None => UpsertAction::Insert {
                    code: r.code.clone(),
                    rewards: crate::record::clone_strings(&r.rewards),
                    source: r.source.clone(),
                    active: r.active,
                },
            };
            proof {
                assert(action@ == upsert_for(self.known@, views(self.records@)[i as int]));
            }
            let ghost plan_before = plan@;
            plan.push(action);
            proof {
                assert forall|j: int| 0 <= j < i + 1 implies upsert_views(plan@)[j] == upsert_for(
                    self.known@,
                    views(self.records@)[j],
                ) by {
                    if j < i {
                        assert(upsert_views(plan_before)[j] == upsert_for(
                            self.known@,
                            views(self.records@)[j],
                        ));
                        assert(plan@[j] == plan_before[j]);
                        assert(upsert_views(plan@)[j] == plan@[j]@);
                        assert(upsert_views(plan_before)[j] == plan_before[j]@);
                    } else {
                        assert(upsert_views(plan@)[j] == plan@[j]@);
                    }
                }
            }
            i = i + 1;
        }
        proof {
            assert(upsert_views(plan@) =~= plan_model(self.known@, views(self.records@)));
        }
        plan
    }

    /// The decided records themselves, for callers that read rather than
    /// persist.
    pub fn records(&self) -> (r: &Vec<RedemptionCode>)
        ensures
            views(r@) == self.pending_view(),
    {
        &self.records
    }
}

/// Reconciling candidates whose codes are all already known is idempotent:
/// no merged candidate needs an oracle call, and every planned write is a
/// rewards-and-source refresh, which carries no active flag and no
/// discovery date.  Together with [`Reconciler::advance`], which hands a
/// code to the oracle only when the store does not know it, a re-run over
/// unchanged, fully persisted data issues zero validation calls and leaves
/// every persisted verdict untouched.
pub proof fn lemma_reconcile_idempotent(known: Seq<KnownCode>, candidates: Seq<CodeView>)
    requires
        forall|i: int|
            0 <= i < candidates.len() ==> stored_active(
                known,
                (#[trigger] candidates[i]).code,
            ) is Some,
    ensures
        forall|i: int|
            0 <= i < dedup_model(candidates).len() ==> stored_active(
                known,
                (#[trigger] dedup_model(candidates)[i]).code,
            ) is Some,
        forall|i: int|
            0 <= i < dedup_model(candidates).len() ==> plan_model(known, dedup_model(candidates))[i]
                is Refresh,
{
    let merged = dedup_model(candidates);
    assert forall|i: int| 0 <= i < merged.len() implies stored_active(
        known,
        (#[trigger] merged[i]).code,
    ) is Some by {
        let c = merged[i].code;
        assert(has_code(merged, c));
        lemma_dedup_same_codes(candidates, c);
        let j = crate::aggregate::index_of_code(candidates, c);
        assert(0 <= j < candidates.len() && candidates[j].code == c);
    }
    assert forall|i: int| 0 <= i < merged.len() implies plan_model(known, merged)[i]
        is Refresh by {
        assert(plan_model(known, merged)[i] == upsert_for(known, merged[i]));
    }
}

} // verus!
