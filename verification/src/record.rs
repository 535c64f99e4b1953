//! The redemption-code record and its mathematical view.

use vstd::prelude::*;

verus! {

/// One redemption code as the pipeline sees it: the code string is the
/// unique key; `rewards` and `source` describe the latest scrape; `active`
/// is the authoritative verdict; `date` is the discovery timestamp in
/// milliseconds since the epoch, assigned by the store on first insert.
pub struct RedemptionCode {
    pub code: String,
    pub rewards: Vec<String>,
    pub source: String,
    pub active: bool,
    pub date: Option<i64>,
}

/// The mathematical view of a [`RedemptionCode`].
pub struct CodeView {
    pub code: Seq<char>,
    pub rewards: Seq<Seq<char>>,
    pub source: Seq<char>,
    pub active: bool,
    pub date: Option<i64>,
}

impl View for RedemptionCode {
    type V = CodeView;

    open spec fn view(&self) -> CodeView {
        CodeView {
            code: self.code@,
            rewards: self.rewards.deep_view(),
            source: self.source@,
            active: self.active,
            date: self.date,
        }
    }
}

/// The views of a sequence of records, in order.
pub open spec fn views(s: Seq<RedemptionCode>) -> Seq<CodeView> {
    s.map_values(|r: RedemptionCode| r@)
}

impl CodeView {
    /// The same record with its active flag replaced.
    pub open spec fn with_active(self, active: bool) -> CodeView {
        CodeView { active, ..self }
    }
}

/// The active flag a freshly scraped candidate carries before any verdict.
pub fn default_as_true() -> (b: bool)
    ensures
        b,
{
    true
}

/// Copies a vector of strings, keeping the view.
pub fn clone_strings(v: &Vec<String>) -> (r: Vec<String>)
    ensures
        r.deep_view() == v.deep_view(),
{
    let mut r: Vec<String> = Vec::new();
    let mut i: usize = 0;
    while i < v.len()
        invariant
            i <= v.len(),
            r.len() == i,
            forall|j: int| 0 <= j < i ==> r.deep_view()[j] == v.deep_view()[j],
        decreases v.len() - i,
    {
        r.push(v[i].clone());
        i = i + 1;
    }
    assert(r.deep_view() =~= v.deep_view());
    r
}

} // verus!
