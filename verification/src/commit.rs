//! The normalized commit record: an opaque short identifier, a date string,
//! and the summary line. The summary is the sole comparison key used by
//! reconciliation and filtering; `_id` and `date` are informational only.

use vstd::prelude::*;
use vstd::string::*;

use crate::text::{find_char_from, find_from, lemma_find_from};

verus! {

/// Mathematical image of a `Commit`: the three fields as character sequences.
#[verifier::ext_equal]
pub ghost struct CommitView {
    pub id: Seq<char>,
    pub date: Seq<char>,
    pub summary: Seq<char>,
}

/// One commit as parsed from a single `id|date|summary` log line.
#[derive(Debug)]
pub struct Commit {
    pub _id: String,
    pub date: String,
    pub summary: String,
}

impl View for Commit {
    type V = CommitView;

    open spec fn view(&self) -> CommitView {
        CommitView { id: self._id@, date: self.date@, summary: self.summary@ }
    }
}

/// The views of a sequence of commits.
pub open spec fn views_of(s: Seq<Commit>) -> Seq<CommitView> {
    s.map_values(|c: Commit| c@)
}

/// A raw log line holds the three expected pipe-delimited fields, that is,
/// at least two `|` separators.
pub open spec fn line_well_formed(s: Seq<char>) -> bool {
    find_from(s, '|', find_from(s, '|', 0) + 1) < s.len()
}

/// The record encoded by a well-formed log line: the text before the first
/// `|` is the identifier, the text between the first and second `|` is the
/// date, and the text between the second and third `|` (or the end of the
/// line) is the summary. A summary containing `|` is therefore truncated at
/// its first occurrence; this is the documented contract of the upstream
/// log format, not widened here.
pub open spec fn parse_line(s: Seq<char>) -> CommitView {
    let p1 = find_from(s, '|', 0);
    let p2 = find_from(s, '|', p1 + 1);
    let p3 = find_from(s, '|', p2 + 1);
    CommitView {
        id: s.subrange(0, p1),
        date: s.subrange(p1 + 1, p2),
        summary: s.subrange(p2 + 1, p3),
    }
}

/// Does `s` hold the three expected pipe-delimited fields?
pub fn line_has_fields(s: &str) -> (r: bool)
    ensures
        r == line_well_formed(s@),
{
    let len: usize = s.unicode_len();
    let p1 = find_char_from(s, '|', 0);
    proof {
        lemma_find_from(s@, '|', 0);
    }
    if p1 == len {
        return false;
    }
    let p2 = find_char_from(s, '|', p1 + 1);
    p2 < len
}

impl Commit {
    /// Split one well-formed log line into its three fields.
    pub fn new(msg: String) -> (c: Commit)
        requires
            line_well_formed(msg@),
        ensures
            c@ == parse_line(msg@),
    {
        let s: &str = msg.as_str();
        let len: usize = s.unicode_len();
        let p1 = find_char_from(s, '|', 0);
        proof {
            lemma_find_from(s@, '|', 0);
            assert(p1 < len);
        }
        let p2 = find_char_from(s, '|', p1 + 1);
        proof {
            lemma_find_from(s@, '|', p1 + 1);
            assert(p2 < len);
        }
        let p3 = find_char_from(s, '|', p2 + 1);
        proof {
            lemma_find_from(s@, '|', p2 + 1);
        }
        let _id = String::from_str(s.substring_char(0, p1));
        let date = String::from_str(s.substring_char(p1 + 1, p2));
        let summary = String::from_str(s.substring_char(p2 + 1, p3));
        let c = Commit { _id, date, summary };
        proof {
            assert(c@ =~= parse_line(msg@));
        }
        c
    }

    /// A copy of this record with equal fields.
    pub fn duplicate(&self) -> (c: Commit)
        ensures
            c@ == self@,
    {
        Commit { _id: self._id.clone(), date: self.date.clone(), summary: self.summary.clone() }
    }
}

} // verus!
