//! The reconciler and the exclusion filter.
//!
//! Reconciliation is the asymmetric difference of two commit sequences keyed
//! by summary text alone: a commit of the target branch survives exactly when
//! no commit of the baseline branch has a byte-equal summary. The exclusion
//! filter then drops every commit whose summary contains some caller-supplied
//! exclusion term as a substring (substring match is the one documented
//! policy of this library); with no terms it is the identity.

use vstd::prelude::*;

use crate::commit::{views_of, Commit, CommitView};
use crate::parse::{parse_log, parse_log_spec, strs_view};
use crate::text::{contains_substring, is_substring};

verus! {

/// Some commit of `b` has exactly this summary.
pub open spec fn in_summaries(b: Seq<CommitView>, summary: Seq<char>) -> bool {
    exists|j: int| 0 <= j < b.len() && b[j].summary == summary
}

/// The ordered subsequence of `a` whose summaries appear nowhere in `b`.
pub open spec fn subtract_spec(a: Seq<CommitView>, b: Seq<CommitView>) -> Seq<CommitView>
    decreases a.len(),
{
    if a.len() == 0 {
        Seq::empty()
    } else {
        let rest = subtract_spec(a.drop_last(), b);
        if in_summaries(b, a.last().summary) {
            rest
        } else {
            rest.push(a.last())
        }
    }
}

/// Some exclusion term occurs inside this summary.
pub open spec fn matches_any(summary: Seq<char>, terms: Seq<Seq<char>>) -> bool {
    exists|j: int| 0 <= j < terms.len() && is_substring(terms[j], summary)
}

/// The ordered subsequence of `s` whose summaries contain none of the
/// exclusion terms.
pub open spec fn exclude_spec(s: Seq<CommitView>, terms: Seq<Seq<char>>) -> Seq<CommitView>
    decreases s.len(),
{
    if s.len() == 0 {
        Seq::empty()
    } else {
        let rest = exclude_spec(s.drop_last(), terms);
        if matches_any(s.last().summary, terms) {
            rest
        } else {
            rest.push(s.last())
        }
    }
}

/// The exclusion terms carried by an optional list: none means no terms.
pub open spec fn terms_view(ex: Option<Vec<String>>) -> Seq<Seq<char>> {
    match ex {
        Some(v) => strs_view(v@),
        None => Seq::empty(),
    }
}

/// The final reconciled sequence: the commits of `a` absent from `b` by
/// summary, with the exclusion filter applied once to that difference.
pub open spec fn reconcile_spec(
    a: Seq<CommitView>,
    b: Seq<CommitView>,
    terms: Seq<Seq<char>>,
) -> Seq<CommitView> {
    exclude_spec(subtract_spec(a, b), terms)
}

/// Does some commit of `commits` carry exactly this summary?
fn has_summary(commits: &Vec<Commit>, summary: &String) -> (r: bool)
    ensures
        r == in_summaries(views_of(commits@), summary@),
{
    let mut j: usize = 0;
    while j < commits.len()
        invariant
            j <= commits@.len(),
            forall|j2: int| 0 <= j2 < j ==> views_of(commits@)[j2].summary != summary@,
        decreases commits@.len() - j,
    {
        if commits[j].summary.eq(summary) {
            assert(views_of(commits@)[j as int].summary == summary@);
            return true;
        }
        j = j + 1;
    }
    false
}

/// Does some exclusion term occur inside this summary?
fn matches_terms(summary: &String, terms: &Vec<String>) -> (r: bool)
    ensures
        r == matches_any(summary@, strs_view(terms@)),
{
    let mut j: usize = 0;
    while j < terms.len()
        invariant
            j <= terms@.len(),
            forall|j2: int| 0 <= j2 < j ==> !is_substring(strs_view(terms@)[j2], summary@),
        decreases terms@.len() - j,
    {
        if contains_substring(summary.as_str(), terms[j].as_str()) {
            assert(is_substring(strs_view(terms@)[j as int], summary@));
            return true;
        }
        j = j + 1;
    }
    false
}

/// Keep, in order, the commits of `commits1` whose summary appears nowhere
/// in `commits2`. Nothing is reordered or deduplicated: two commits of
/// `commits1` with the same surviving summary both survive.
pub fn subtract(commits1: Vec<Commit>, commits2: Vec<Commit>) -> (r: Vec<Commit>)
    ensures
        views_of(r@) == subtract_spec(views_of(commits1@), views_of(commits2@)),
{
    let ghost av = views_of(commits1@);
    let ghost bv = views_of(commits2@);
    let mut out: Vec<Commit> = Vec::new();
    let mut i: usize = 0;
    while i < commits1.len()
        invariant
            i <= commits1@.len(),
            av == views_of(commits1@),
            bv == views_of(commits2@),
            views_of(out@) == subtract_spec(av.take(i as int), bv),
        decreases commits1@.len() - i,
    {
        proof {
            assert(av.take(i + 1).drop_last() =~= av.take(i as int));
            assert(av.take(i + 1).last() == commits1@[i as int]@);
        }
        if !has_summary(&commits2, &commits1[i].summary) {
            let ghost prev = out@;
            out.push(commits1[i].duplicate());
            proof {
                assert(views_of(out@) =~= views_of(prev).push(commits1@[i as int]@));
            }
        }
        i = i + 1;
    }
    proof {
        assert(av.take(i as int) =~= av);
    }
    out
}

/// Drop every commit whose summary contains some exclusion term as a
/// substring; with no terms supplied the input comes back unchanged.
pub fn exclude(commits: Vec<Commit>, exclusions: Option<Vec<String>>) -> (r: Vec<Commit>)
    ensures
        views_of(r@) == exclude_spec(views_of(commits@), terms_view(exclusions)),
{
    match exclusions {
        None => {
            proof {
                crate::laws::lemma_exclude_no_terms(views_of(commits@));
            }
            commits
        },
        Some(terms) => {
            let ghost sv = views_of(commits@);
            let ghost tv = strs_view(terms@);
            let mut out: Vec<Commit> = Vec::new();
            let mut i: usize = 0;
            while i < commits.len()
                invariant
                    i <= commits@.len(),
                    sv == views_of(commits@),
                    tv == strs_view(terms@),
                    views_of(out@) == exclude_spec(sv.take(i as int), tv),
                decreases commits@.len() - i,
            {
                proof {
                    assert(sv.take(i + 1).drop_last() =~= sv.take(i as int));
                    assert(sv.take(i + 1).last() == commits@[i as int]@);
                }
                if !matches_terms(&commits[i].summary, &terms) {
                    let ghost prev = out@;
                    out.push(commits[i].duplicate());
                    proof {
                        assert(views_of(out@) =~= views_of(prev).push(commits@[i as int]@));
                    }
                }
                i = i + 1;
            }
            proof {
                assert(sv.take(i as int) =~= sv);
            }
            out
        },
    }
}

/// Reconcile two branches from their raw log texts: parse each log, keep
/// the commits of the first whose summary appears nowhere in the second,
/// then apply the exclusion filter once to that difference.
pub fn compare_branches(
    branch1_log: &str,
    branch2_log: &str,
    words_to_exclude: Option<Vec<String>>,
) -> (r: Vec<Commit>)
    ensures
        views_of(r@) == reconcile_spec(
            parse_log_spec(branch1_log@),
            parse_log_spec(branch2_log@),
            terms_view(words_to_exclude),
        ),
{
    let branch1_commits = parse_log(branch1_log);
    let branch2_commits = parse_log(branch2_log);
    exclude(subtract(branch1_commits, branch2_commits), words_to_exclude)
}

} // verus!
