//! The laws of reconciliation and filtering, stated over the spec functions
//! that the executable contracts use, and proved once and for all.

use vstd::prelude::*;

use crate::commit::CommitView;
use crate::reconcile::{
    exclude_spec, in_summaries, matches_any, reconcile_spec, subtract_spec,
};

verus! {

/// `s` can be obtained from `t` by deleting elements, keeping the relative
/// order of what remains.
pub open spec fn is_subsequence(s: Seq<CommitView>, t: Seq<CommitView>) -> bool
    decreases s.len() + t.len(),
{
    if s.len() == 0 {
        true
    } else if t.len() == 0 {
        false
    } else {
        (s.last() == t.last() && is_subsequence(s.drop_last(), t.drop_last()))
            || is_subsequence(s, t.drop_last())
    }
}

/// A subsequence of `t` without its last element is a subsequence of `t`.
proof fn lemma_subsequence_extend(s: Seq<CommitView>, t: Seq<CommitView>)
    requires
        t.len() > 0,
        is_subsequence(s, t.drop_last()),
    ensures
        is_subsequence(s, t),
{
}

/// How `exclude_spec` acts on a sequence extended by one element.
proof fn lemma_exclude_push(s: Seq<CommitView>, x: CommitView, terms: Seq<Seq<char>>)
    ensures
        exclude_spec(s.push(x), terms) == if matches_any(x.summary, terms) {
            exclude_spec(s, terms)
        } else {
            exclude_spec(s, terms).push(x)
        },
{
    assert(s.push(x).drop_last() =~= s);
    assert(s.push(x).last() == x);
}

/// The reconciled sequence is a subsequence of the target branch `a`: every
/// surviving commit appears in `a`, in the same relative order.
pub proof fn lemma_reconcile_subsequence(
    a: Seq<CommitView>,
    b: Seq<CommitView>,
    terms: Seq<Seq<char>>,
)
    ensures
        is_subsequence(reconcile_spec(a, b, terms), a),
    decreases a.len(),
{
    if a.len() == 0 {
    } else {
        let a0 = a.drop_last();
        let x = a.last();
        lemma_reconcile_subsequence(a0, b, terms);
        let r0 = reconcile_spec(a0, b, terms);
        if in_summaries(b, x.summary) {
            lemma_subsequence_extend(r0, a);
        } else {
            lemma_exclude_push(subtract_spec(a0, b), x, terms);
            if matches_any(x.summary, terms) {
                lemma_subsequence_extend(r0, a);
            } else {
                assert(r0.push(x).drop_last() =~= r0);
                assert(a.drop_last() == a0);
                assert(is_subsequence(r0.push(x), a));
            }
        }
    }
}

/// Every element of the filtered sequence is an element of the input.
proof fn lemma_exclude_elements(s: Seq<CommitView>, terms: Seq<Seq<char>>)
    ensures
        forall|i: int|
            0 <= i < exclude_spec(s, terms).len() ==> s.contains(
                #[trigger] exclude_spec(s, terms)[i],
            ),
    decreases s.len(),
{
    if s.len() == 0 {
    } else {
        let s0 = s.drop_last();
        let x = s.last();
        lemma_exclude_elements(s0, terms);
        let rest = exclude_spec(s0, terms);
        let r = exclude_spec(s, terms);
        assert forall|i: int| 0 <= i < r.len() implies s.contains(r[i]) by {
            if i < rest.len() {
                assert(s0.contains(rest[i]));
                let j = choose|j: int| 0 <= j < s0.len() && s0[j] == rest[i];
                assert(s[j] == r[i]);
            } else {
                assert(s[s.len() - 1] == r[i]);
            }
        }
    }
}

/// No summary surviving subtraction appears anywhere in the baseline `b`.
proof fn lemma_subtract_absent(a: Seq<CommitView>, b: Seq<CommitView>)
    ensures
        forall|i: int|
            0 <= i < subtract_spec(a, b).len() ==> !in_summaries(
                b,
                (#[trigger] subtract_spec(a, b)[i]).summary,
            ),
    decreases a.len(),
{
    if a.len() == 0 {
    } else {
        let a0 = a.drop_last();
        let x = a.last();
        lemma_subtract_absent(a0, b);
        let rest = subtract_spec(a0, b);
        let r = subtract_spec(a, b);
        assert forall|i: int| 0 <= i < r.len() implies !in_summaries(b, r[i].summary) by {
            if i < rest.len() {
                assert(r[i] == rest[i]);
                assert(!in_summaries(b, rest[i].summary));
            } else {
                assert(r[i] == x);
            }
        }
    }
}

/// No summary in the reconciled sequence appears anywhere in the baseline
/// branch `b`.
pub proof fn lemma_reconcile_absent_from_baseline(
    a: Seq<CommitView>,
    b: Seq<CommitView>,
    terms: Seq<Seq<char>>,
)
    ensures
        forall|i: int|
            0 <= i < reconcile_spec(a, b, terms).len() ==> !in_summaries(
                b,
                (#[trigger] reconcile_spec(a, b, terms)[i]).summary,
            ),
{
    let sub = subtract_spec(a, b);
    let r = reconcile_spec(a, b, terms);
    lemma_subtract_absent(a, b);
    lemma_exclude_elements(sub, terms);
    assert forall|i: int| 0 <= i < r.len() implies !in_summaries(b, r[i].summary) by {
        assert(sub.contains(r[i]));
        let j = choose|j: int| 0 <= j < sub.len() && sub[j] == r[i];
        assert(!in_summaries(b, sub[j].summary));
    }
}

/// Nothing kept by the filter still matches an exclusion term.
proof fn lemma_exclude_matches_none(s: Seq<CommitView>, terms: Seq<Seq<char>>)
    ensures
        forall|i: int|
            0 <= i < exclude_spec(s, terms).len() ==> !matches_any(
                (#[trigger] exclude_spec(s, terms)[i]).summary,
                terms,
            ),
    decreases s.len(),
{
    if s.len() == 0 {
    } else {
        let s0 = s.drop_last();
        let x = s.last();
        lemma_exclude_matches_none(s0, terms);
        let rest = exclude_spec(s0, terms);
        let r = exclude_spec(s, terms);
        assert forall|i: int| 0 <= i < r.len() implies !matches_any(r[i].summary, terms) by {
            if i < rest.len() {
                assert(r[i] == rest[i]);
                assert(!matches_any(rest[i].summary, terms));
            } else {
                assert(r[i] == x);
            }
        }
    }
}

/// On a sequence none of whose summaries matches a term, the filter is the
/// identity.
proof fn lemma_exclude_identity(s: Seq<CommitView>, terms: Seq<Seq<char>>)
    requires
        forall|i: int| 0 <= i < s.len() ==> !matches_any((#[trigger] s[i]).summary, terms),
    ensures
        exclude_spec(s, terms) == s,
    decreases s.len(),
{
    if s.len() == 0 {
        assert(exclude_spec(s, terms) =~= s);
    } else {
        assert forall|i: int| 0 <= i < s.drop_last().len() implies !matches_any(
            (#[trigger] s.drop_last()[i]).summary,
            terms,
        ) by {
            assert(s.drop_last()[i] == s[i]);
        }
        lemma_exclude_identity(s.drop_last(), terms);
        assert(!matches_any(s[s.len() - 1].summary, terms));
        assert(exclude_spec(s, terms) =~= s);
    }
}

/// Filtering an already-filtered sequence with the same exclusion terms
/// changes nothing: the exclusion filter is idempotent.
pub proof fn lemma_exclude_idempotent(s: Seq<CommitView>, terms: Seq<Seq<char>>)
    ensures
        exclude_spec(exclude_spec(s, terms), terms) == exclude_spec(s, terms),
{
    lemma_exclude_matches_none(s, terms);
    lemma_exclude_identity(exclude_spec(s, terms), terms);
}

/// With an empty baseline, subtraction returns the target branch exactly,
/// in order.
pub proof fn lemma_subtract_empty_baseline(a: Seq<CommitView>)
    ensures
        subtract_spec(a, Seq::empty()) == a,
    decreases a.len(),
{
    if a.len() == 0 {
        assert(subtract_spec(a, Seq::<CommitView>::empty()) =~= a);
    } else {
        lemma_subtract_empty_baseline(a.drop_last());
        assert(!in_summaries(Seq::<CommitView>::empty(), a.last().summary));
        assert(subtract_spec(a, Seq::<CommitView>::empty()) =~= a);
    }
}

/// When every summary of `a` also appears somewhere in `b` — in particular
/// when the two branches carry identical multisets of summaries — nothing
/// survives subtraction.
pub proof fn lemma_subtract_covered_baseline(a: Seq<CommitView>, b: Seq<CommitView>)
    requires
        forall|i: int| 0 <= i < a.len() ==> in_summaries(b, (#[trigger] a[i]).summary),
    ensures
        subtract_spec(a, b) == Seq::<CommitView>::empty(),
    decreases a.len(),
{
    if a.len() == 0 {
        assert(subtract_spec(a, b) =~= Seq::<CommitView>::empty());
    } else {
        assert forall|i: int| 0 <= i < a.drop_last().len() implies in_summaries(
            b,
            (#[trigger] a.drop_last()[i]).summary,
        ) by {
            assert(a.drop_last()[i] == a[i]);
        }
        lemma_subtract_covered_baseline(a.drop_last(), b);
        assert(in_summaries(b, a[a.len() - 1].summary));
    }
}

/// With an empty target branch the reconciled result is empty, whatever the
/// baseline and the exclusion terms.
pub proof fn lemma_reconcile_empty_target(b: Seq<CommitView>, terms: Seq<Seq<char>>)
    ensures
        reconcile_spec(Seq::empty(), b, terms) == Seq::<CommitView>::empty(),
{
    assert(subtract_spec(Seq::<CommitView>::empty(), b) =~= Seq::<CommitView>::empty());
    assert(exclude_spec(Seq::<CommitView>::empty(), terms) =~= Seq::<CommitView>::empty());
}

/// With no exclusion terms the exclusion filter is the identity.
pub proof fn lemma_exclude_no_terms(s: Seq<CommitView>)
    ensures
        exclude_spec(s, Seq::empty()) == s,
    decreases s.len(),
{
    if s.len() == 0 {
        assert(exclude_spec(s, Seq::<Seq<char>>::empty()) =~= s);
    } else {
        lemma_exclude_no_terms(s.drop_last());
        assert(!matches_any(s.last().summary, Seq::<Seq<char>>::empty()));
        assert(exclude_spec(s, Seq::<Seq<char>>::empty()) =~= s);
    }
}

} // verus!


