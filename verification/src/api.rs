//! Shapes served by the public read-only API.
//!
//! The HTTP layer outside this crate fetches persisted records and calls
//! here to split them by verdict, strip them down to the served shape, and
//! list the routes.  Serialisation happens outside; these are the plain
//! values it serialises.

use crate::lang_parser::{parse_language_code, spec_parse_language};
use crate::record::{views, CodeView, RedemptionCode};
use vstd::prelude::*;

verus! {

/// A redemption code as served: the code and its rewards, nothing else.
pub struct SimpleRedemptionCode {
    pub code: String,
    pub rewards: Vec<String>,
}

/// The mathematical view of a [`SimpleRedemptionCode`].
pub struct SimpleCodeView {
    pub code: Seq<char>,
    pub rewards: Seq<Seq<char>>,
}

impl View for SimpleRedemptionCode {
    type V = SimpleCodeView;

    open spec fn view(&self) -> SimpleCodeView {
        SimpleCodeView { code: self.code@, rewards: self.rewards.deep_view() }
    }
}

/// The code-listing response: active and inactive codes, separately.
pub struct SimpleCodeResponse {
    pub active: Vec<SimpleRedemptionCode>,
    pub inactive: Vec<SimpleRedemptionCode>,
}

/// The list of routes the service serves.
pub struct ApiEndpoints {
    pub endpoints: Vec<String>,
}

/// An optional language filter, as read from the query string.
pub struct NewsQueryParams {
    pub lang: Option<String>,
}

/// The records of `s` whose verdict is active, in order.
pub open spec fn actives_model(s: Seq<CodeView>) -> Seq<CodeView>
    decreases s.len(),
{
    if s.len() == 0 {
        Seq::empty()
    } else if s[0].active {
        seq![s[0]] + actives_model(s.drop_first())
    } else {
        actives_model(s.drop_first())
    }
}

/// The records of `s` whose verdict is inactive, in order.
pub open spec fn inactives_model(s: Seq<CodeView>) -> Seq<CodeView>
    decreases s.len(),
{
    if s.len() == 0 {
        Seq::empty()
    } else if !s[0].active {
        seq![s[0]] + inactives_model(s.drop_first())
    } else {
        inactives_model(s.drop_first())
    }
}

/// What serving strips a record down to.
pub open spec fn simple_of(r: CodeView) -> SimpleCodeView {
    SimpleCodeView { code: r.code, rewards: r.rewards }
}

/// The views of a sequence of served codes, in order.
pub open spec fn simple_views(s: Seq<SimpleRedemptionCode>) -> Seq<SimpleCodeView> {
    s.map_values(|r: SimpleRedemptionCode| r@)
}

/// Splits persisted records into the active and the inactive ones,
/// keeping their order.
pub fn split_by_active(records: Vec<RedemptionCode>) -> (r: (
    Vec<RedemptionCode>,
    Vec<RedemptionCode>,
))
    ensures
        views(r.0@) == actives_model(views(records@)),
        views(r.1@) == inactives_model(views(records@)),
{
    let ghost orig = views(records@);
    let mut rest = records;
    let mut active: Vec<RedemptionCode> = Vec::new();
    let mut inactive: Vec<RedemptionCode> = Vec::new();
    let ghost mut i: int = 0;
    proof {
        assert(orig.skip(0) =~= orig);
        assert(views(active@) =~= Seq::<CodeView>::empty());
        assert(views(inactive@) =~= Seq::<CodeView>::empty());
        assert(Seq::<CodeView>::empty() + actives_model(orig) =~= actives_model(orig));
        assert(Seq::<CodeView>::empty() + inactives_model(orig) =~= inactives_model(orig));
    }
    while rest.len() > 0
        invariant
            0 <= i <= orig.len(),
            rest@.len() == orig.len() - i,
            forall|j: int| 0 <= j < rest@.len() ==> #[trigger] rest@[j]@ == orig[i + j],
            views(active@) + actives_model(orig.skip(i)) == actives_model(orig),
            views(inactive@) + inactives_model(orig.skip(i)) == inactives_model(orig),
        decreases rest.len(),
    {
        let r = rest.remove(0);
        proof {
            assert(r@ == orig[i]);
            assert(orig.skip(i)[0] == orig[i]);
            assert(orig.skip(i).drop_first() =~= orig.skip(i + 1));
        }
        let ghost act_before = views(active@);
        let ghost inact_before = views(inactive@);
        if r.active {
            active.push(r);
            proof {
                assert(views(active@) =~= act_before + seq![orig[i]]);
                assert(views(active@) + actives_model(orig.skip(i + 1)) =~= act_before
                    + actives_model(orig.skip(i)));
            }
        } else {
            inactive.push(r);
            proof {
                assert(views(inactive@) =~= inact_before + seq![orig[i]]);
                assert(views(inactive@) + inactives_model(orig.skip(i + 1)) =~= inact_before
                    + inactives_model(orig.skip(i)));
            }
        }
        proof {
            i = i + 1;
        }
    }
    proof {
        assert(orig.skip(orig.len() as int) =~= Seq::<CodeView>::empty());
        assert(views(active@) + actives_model(orig.skip(orig.len() as int)) =~= views(active@));
        assert(views(inactive@) + inactives_model(orig.skip(orig.len() as int)) =~= views(
            inactive@,
        ));
    }
    (active, inactive)
}

/// Strips one list of records down to the served shape, keeping order.
fn simplify_records(records: Vec<RedemptionCode>) -> (out: Vec<SimpleRedemptionCode>)
    ensures
        simple_views(out@) == views(records@).map_values(|r: CodeView| simple_of(r)),
{
    let ghost orig = views(records@);
    let mut rest = records;
    let mut out: Vec<SimpleRedemptionCode> = Vec::new();
    let ghost mut i: int = 0;
    while rest.len() > 0
        invariant
            0 <= i <= orig.len(),
            rest@.len() == orig.len() - i,
            forall|j: int| 0 <= j < rest@.len() ==> #[trigger] rest@[j]@ == orig[i + j],
            out@.len() == i,
            forall|j: int| 0 <= j < i ==> #[trigger] out@[j]@ == simple_of(orig[j]),
        decreases rest.len(),
    {
        let r = rest.remove(0);
        proof {
            assert(r@ == orig[i]);
        }
        out.push(SimpleRedemptionCode { code: r.code, rewards: r.rewards });
        proof {
            i = i + 1;
        }
    }
    proof {
        assert(simple_views(out@) =~= orig.map_values(|r: CodeView| simple_of(r)));
    }
    out
}

/// Builds the code-listing response from the split record lists: each
/// record keeps exactly its code and rewards, in order.
pub fn simple_code_response(active: Vec<RedemptionCode>, inactive: Vec<RedemptionCode>) -> (resp:
    SimpleCodeResponse)
    ensures
        simple_views(resp.active@) == views(active@).map_values(|r: CodeView| simple_of(r)),
        simple_views(resp.inactive@) == views(inactive@).map_values(|r: CodeView| simple_of(r)),
{
    SimpleCodeResponse {
        active: simplify_records(active),
        inactive: simplify_records(inactive),
    }
}

/// The five routes the service serves.
pub fn get_api_endpoints() -> (r: ApiEndpoints)
    ensures
        r.endpoints@.len() == 5,
        r.endpoints@[0]@ == "/starrail"@,
        r.endpoints@[1]@ == "/starrail/code"@,
        r.endpoints@[2]@ == "/starrail/news/events"@,
        r.endpoints@[3]@ == "/starrail/news/notices"@,
        r.endpoints@[4]@ == "/starrail/news/info"@,
{
    let mut endpoints: Vec<String> = Vec::new();
    endpoints.push("/starrail".to_owned());
    endpoints.push("/starrail/code".to_owned());
    endpoints.push("/starrail/news/events".to_owned());
    endpoints.push("/starrail/news/notices".to_owned());
    endpoints.push("/starrail/news/info".to_owned());
    ApiEndpoints { endpoints }
}

/// The canonical language tag a request asks for, if it asks for one.
pub fn requested_language(params: &NewsQueryParams) -> (r: Option<&'static str>)
    ensures
        match params.lang {
            Some(l) => r matches Some(tag) && tag@ == spec_parse_language(l@),
            None => r is None,
        },
{
    match &params.lang {
        Some(l) => Some(parse_language_code(l.as_str())),
        None => None,
    }
}

} // verus!
