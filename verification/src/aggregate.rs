//! Merging and deduplicating the outputs of all code sources.
//!
//! Source outputs are concatenated in the fixed registration order and then
//! reduced to one record per code.  When a code appears several times, the
//! record seen last in that order wins; the merged list keeps the order in
//! which codes were first encountered.  Both steps are deterministic
//! functions of the input, never a race.

use crate::record::{views, CodeView, RedemptionCode};
use vstd::prelude::*;

verus! {

/// The contents of a list of batches, batch by batch.
pub open spec fn batch_views(batches: Seq<Vec<RedemptionCode>>) -> Seq<Seq<RedemptionCode>> {
    batches.map_values(|b: Vec<RedemptionCode>| b@)
}

/// The concatenation of all batches, in order.
pub open spec fn concat_model(batches: Seq<Seq<RedemptionCode>>) -> Seq<RedemptionCode>
    decreases batches.len(),
{
    if batches.len() == 0 {
        Seq::empty()
    } else {
        concat_model(batches.drop_last()) + batches.last()
    }
}

/// Whether some record in `s` carries the code `c`.
pub open spec fn has_code(s: Seq<CodeView>, c: Seq<char>) -> bool {
    exists|i: int| 0 <= i < s.len() && s[i].code == c
}

/// An index of a record in `s` carrying the code `c`.
pub open spec fn index_of_code(s: Seq<CodeView>, c: Seq<char>) -> int {
    choose|i: int| 0 <= i < s.len() && s[i].code == c
}

/// The index of the last record in `s` carrying the code `c`.
pub open spec fn last_index_of_code(s: Seq<CodeView>, c: Seq<char>) -> int
    recommends
        has_code(s, c),
    decreases s.len(),
{
    if s.len() == 0 {
        -1
    } else if s.last().code == c {
        s.len() - 1
    } else {
        last_index_of_code(s.drop_last(), c)
    }
}

/// No two records in `s` carry the same code.
pub open spec fn unique_codes(s: Seq<CodeView>) -> bool {
    forall|i: int, j: int| 0 <= i < j < s.len() ==> s[i].code != s[j].code
}

/// The merged list: one record per code, the last occurrence winning,
/// codes ordered by first appearance.
pub open spec fn dedup_model(s: Seq<CodeView>) -> Seq<CodeView>
    decreases s.len(),
{
    if s.len() == 0 {
        Seq::empty()
    } else {
        let prev = dedup_model(s.drop_last());
        let r = s.last();
        if has_code(prev, r.code) {
            prev.update(index_of_code(prev, r.code), r)
        } else {
            prev.push(r)
        }
    }
}

/// When codes are unique, `index_of_code` picks exactly the index where
/// the code sits.
pub proof fn lemma_index_of_code_unique(s: Seq<CodeView>, c: Seq<char>, k: int)
    requires
        unique_codes(s),
        0 <= k < s.len(),
        s[k].code == c,
    ensures
        index_of_code(s, c) == k,
{
    let i = index_of_code(s, c);
    assert(0 <= i < s.len() && s[i].code == c);
}

/// The merged list never repeats a code.
pub proof fn lemma_dedup_unique_codes(s: Seq<CodeView>)
    ensures
        unique_codes(dedup_model(s)),
    decreases s.len(),
{
    if s.len() > 0 {
        lemma_dedup_unique_codes(s.drop_last());
        let prev = dedup_model(s.drop_last());
        let r = s.last();
        if has_code(prev, r.code) {
            let k = index_of_code(prev, r.code);
            assert(0 <= k < prev.len() && prev[k].code == r.code);
            let out = prev.update(k, r);
            assert forall|i: int, j: int| 0 <= i < j < out.len() implies out[i].code
                != out[j].code by {
                assert(out[i].code == prev[i].code);
                assert(out[j].code == prev[j].code);
            }
        }
    }
}

/// Merging neither invents nor loses codes.
pub proof fn lemma_dedup_same_codes(s: Seq<CodeView>, c: Seq<char>)
    ensures
        has_code(dedup_model(s), c) <==> has_code(s, c),
    decreases s.len(),
{
    if s.len() > 0 {
        lemma_dedup_same_codes(s.drop_last(), c);
        let prev = dedup_model(s.drop_last());
        let r = s.last();
        let out = dedup_model(s);
        if has_code(prev, r.code) {
            let k = index_of_code(prev, r.code);
            assert(0 <= k < prev.len() && prev[k].code == r.code);
            if has_code(s, c) {
                if c == r.code {
                    assert(out[k].code == c);
                } else {
                    let i = index_of_code(s, c);
                    assert(0 <= i < s.len() && s[i].code == c);
                    assert(i < s.len() - 1);
                    assert(s.drop_last()[i] == s[i]);
                    assert(has_code(s.drop_last(), c));
                    let j = index_of_code(prev, c);
                    assert(0 <= j < prev.len() && prev[j].code == c);
                    assert(out[j].code == c || out[j] == r);
                    assert(out[j].code == c);
                }
            }
            if has_code(out, c) {
                let i = index_of_code(out, c);
                assert(0 <= i < out.len() && out[i].code == c);
                assert(out[i] == r || out[i] == prev[i]);
            }
        } else {
            if has_code(s, c) {
                if c == r.code {
                    assert(out.last().code == c);
                } else {
                    let i = index_of_code(s, c);
                    assert(0 <= i < s.len() && s[i].code == c);
                    assert(i < s.len() - 1);
                    assert(s.drop_last()[i] == s[i]);
                    assert(has_code(s.drop_last(), c));
                    let j = index_of_code(prev, c);
                    assert(0 <= j < prev.len() && prev[j].code == c);
                    assert(out[j].code == c);
                }
            }
            if has_code(out, c) {
                let i = index_of_code(out, c);
                assert(0 <= i < out.len() && out[i].code == c);
                if i < prev.len() {
                    assert(prev[i].code == c);
                } else {
                    assert(out[i] == r);
                }
            }
        }
    }
}

/// `last_index_of_code` indeed points at a record carrying the code.
pub proof fn lemma_last_index_of_code(s: Seq<CodeView>, c: Seq<char>)
    requires
        has_code(s, c),
    ensures
        0 <= last_index_of_code(s, c) < s.len(),
        s[last_index_of_code(s, c)].code == c,
        forall|j: int| last_index_of_code(s, c) < j < s.len() ==> s[j].code != c,
    decreases s.len(),
{
    if s.last().code != c {
        let i = index_of_code(s, c);
        assert(0 <= i < s.len() && s[i].code == c);
        assert(s.drop_last()[i] == s[i]);
        lemma_last_index_of_code(s.drop_last(), c);
        assert forall|j: int| last_index_of_code(s, c) < j < s.len() implies s[j].code != c by {
            if j < s.len() - 1 {
                assert(s.drop_last()[j] == s[j]);
            }
        }
    }
}

/// Deduplication keeps, for each code, exactly the record of its last
/// occurrence in source order; given a fixed source order the merge result
/// is therefore fully determined.
pub proof fn lemma_dedup_last_wins(s: Seq<CodeView>, c: Seq<char>)
    requires
        has_code(s, c),
    ensures
        has_code(dedup_model(s), c),
        dedup_model(s)[index_of_code(dedup_model(s), c)] == s[last_index_of_code(s, c)],
    decreases s.len(),
{
    lemma_dedup_same_codes(s, c);
    lemma_dedup_unique_codes(s);
    lemma_dedup_unique_codes(s.drop_last());
    lemma_last_index_of_code(s, c);
    let prev = dedup_model(s.drop_last());
    let r = s.last();
    let out = dedup_model(s);
    if r.code == c {
        if has_code(prev, c) {
            let k = index_of_code(prev, c);
            assert(0 <= k < prev.len() && prev[k].code == c);
            assert(out[k] == r);
            lemma_index_of_code_unique(out, c, k);
        } else {
            assert(out.last() == r);
            lemma_index_of_code_unique(out, c, out.len() - 1);
        }
    } else {
        let i0 = index_of_code(s, c);
        assert(0 <= i0 < s.len() && s[i0].code == c);
        assert(i0 < s.len() - 1);
        assert(s.drop_last()[i0] == s[i0]);
        assert(has_code(s.drop_last(), c));
        lemma_dedup_last_wins(s.drop_last(), c);
        let j = index_of_code(prev, c);
        assert(prev[j] == s.drop_last()[last_index_of_code(s.drop_last(), c)]);
        assert(s.drop_last()[last_index_of_code(s.drop_last(), c)]
            == s[last_index_of_code(s, c)]);
        if has_code(prev, r.code) {
            let k = index_of_code(prev, r.code);
            assert(0 <= k < prev.len() && prev[k].code == r.code);
            assert(k != j);
            assert(out[j] == prev[j]);
            lemma_index_of_code_unique(out, c, j);
        } else {
            assert(out[j] == prev[j]);
            lemma_index_of_code_unique(out, c, j);
        }
    }
}

/// Concatenates all source batches in registration order.
pub fn merge_sources(batches: Vec<Vec<RedemptionCode>>) -> (all: Vec<RedemptionCode>)
    ensures
        all@ == concat_model(batch_views(batches@)),
{
    let ghost orig = batch_views(batches@);
    let mut rest = batches;
    let mut all: Vec<RedemptionCode> = Vec::new();
    let ghost mut i: int = 0;
    while rest.len() > 0
        invariant
            0 <= i <= orig.len(),
            rest@.len() == orig.len() - i,
            forall|j: int| 0 <= j < rest@.len() ==> #[trigger] rest@[j]@ == orig[i + j],
            all@ == concat_model(orig.take(i)),
        decreases rest.len(),
    {
        let mut b = rest.remove(0);
        proof {
            assert(b@ == orig[i]);
        }
        all.append(&mut b);
        proof {
            assert(orig.take(i + 1).drop_last() =~= orig.take(i));
            assert(orig.take(i + 1).last() == orig[i]);
            i = i + 1;
        }
    }
    proof {
        assert(orig.take(orig.len() as int) =~= orig);
    }
    all
}

/// Finds the index of the record carrying `code`, if any.
fn find_code(records: &Vec<RedemptionCode>, code: &String) -> (r: Option<usize>)
    ensures
        match r {
            Some(j) => j < records@.len() && records@[j as int]@.code == code@,
            None => forall|k: int| 0 <= k < records@.len() ==> records@[k]@.code != code@,
        },
{
    let mut j: usize = 0;
    while j < records.len()
        invariant
            j <= records@.len(),
            forall|k: int| 0 <= k < j ==> records@[k]@.code != code@,
        decreases records@.len() - j,
    {
        if records[j].code.eq(code) {
            return Some(j);
        }
        j = j + 1;
    }
    None
}

/// Reduces the concatenated candidate list to one record per code.  The
/// record encountered last wins; codes keep the order of their first
/// appearance.
pub fn dedup_codes(candidates: Vec<RedemptionCode>) -> (merged: Vec<RedemptionCode>)
    ensures
        views(merged@) == dedup_model(views(candidates@)),
        unique_codes(views(merged@)),
{
    let ghost w = views(candidates@);
    let mut rest = candidates;
    let mut merged: Vec<RedemptionCode> = Vec::new();
    let ghost mut i: int = 0;
    while rest.len() > 0
        invariant
            0 <= i <= w.len(),
            rest@.len() == w.len() - i,
            forall|j: int| 0 <= j < rest@.len() ==> #[trigger] rest@[j]@ == w[i + j],
            views(merged@) == dedup_model(w.take(i)),
        decreases rest.len(),
    {
        let r = rest.remove(0);
        proof {
            assert(r@ == w[i]);
            assert(w.take(i + 1).drop_last() =~= w.take(i));
            assert(w.take(i + 1).last() == w[i]);
            lemma_dedup_unique_codes(w.take(i));
        }
        let found = find_code(&merged, &r.code);
        match found {
            Some(j) => {
                proof {
                    lemma_index_of_code_unique(views(merged@), r@.code, j as int);
                }
                merged.set(j, r);
                proof {
                    assert(has_code(dedup_model(w.take(i)), w[i].code));
                    assert(views(merged@) =~= dedup_model(w.take(i)).update(
                        index_of_code(dedup_model(w.take(i)), w[i].code),
                        w[i],
                    ));
                    assert(views(merged@) == dedup_model(w.take(i + 1)));
                }
            },
            None => {
                merged.push(r);
                proof {
                    assert(!has_code(dedup_model(w.take(i)), w[i].code));
                    assert(views(merged@) =~= dedup_model(w.take(i)).push(w[i]));
                    assert(views(merged@) == dedup_model(w.take(i + 1)));
                }
            },
        }
        proof {
            i = i + 1;
        }
    }
    proof {
        assert(w.take(w.len() as int) =~= w);
        lemma_dedup_unique_codes(w);
    }
    merged
}

} // verus!
