//! The log parser: raw multi-line log text, one `id|date|summary` commit per
//! line, becomes an ordered sequence of commit records.
//!
//! Malformed-line policy: a line without the expected two `|` separators is
//! skipped, deterministically, and the remaining lines are still parsed. The
//! whole call never fails on account of a malformed line.

use vstd::prelude::*;
use vstd::string::*;

use crate::commit::{line_has_fields, line_well_formed, parse_line, views_of, Commit, CommitView};
use crate::text::{find_char_from, find_from, lemma_find_from};

verus! {

/// A line terminated by `'\n'` sheds one carriage return standing right
/// before the terminator, so `"\r\n"` ends a line just as `'\n'` does.
pub open spec fn strip_cr(l: Seq<char>) -> Seq<char> {
    if l.len() > 0 && l.last() == '\r' {
        l.drop_last()
    } else {
        l
    }
}

/// The lines of `s` from position `i` on. Lines end at `'\n'` or `"\r\n"`;
/// a trailing terminator ends the last line without opening an empty one,
/// and a final segment with no terminator is kept as it stands.
pub open spec fn lines_from(s: Seq<char>, i: int) -> Seq<Seq<char>>
    decreases s.len() - i,
{
    if i < 0 || i >= s.len() {
        Seq::empty()
    } else {
        let j = find_from(s, '\n', i);
        proof {
            lemma_find_from(s, '\n', i);
        }
        if j >= s.len() {
            seq![s.subrange(i, s.len() as int)]
        } else {
            seq![strip_cr(s.subrange(i, j))] + lines_from(s, j + 1)
        }
    }
}

/// The lines of `s`, split at `'\n'` or `"\r\n"`.
pub open spec fn lines_spec(s: Seq<char>) -> Seq<Seq<char>> {
    lines_from(s, 0)
}

/// The views of a sequence of strings.
pub open spec fn strs_view(s: Seq<String>) -> Seq<Seq<char>> {
    s.map_values(|x: String| x@)
}

/// Split raw log text into its lines.
pub fn parse_git_output(raw: &str) -> (lines: Vec<String>)
    ensures
        strs_view(lines@) == lines_spec(raw@),
{
    let len: usize = raw.unicode_len();
    let mut out: Vec<String> = Vec::new();
    let mut pos: usize = 0;
    while pos < len
        invariant
            pos <= len,
            len == raw@.len(),
            strs_view(out@) + lines_from(raw@, pos as int) =~= lines_spec(raw@),
        decreases len - pos,
    {
        let j = find_char_from(raw, '\n', pos);
        proof {
            lemma_find_from(raw@, '\n', pos as int);
        }
        if j == len {
            let line = String::from_str(raw.substring_char(pos, j));
            let ghost prev = out@;
            out.push(line);
            pos = len;
            proof {
                assert(strs_view(out@) =~= strs_view(prev).push(line@));
                assert(strs_view(out@) + lines_from(raw@, pos as int) =~= lines_spec(raw@));
            }
        } else {
            let end: usize = if j > pos && raw.get_char(j - 1) == '\r' {
                j - 1
            } else {
                j
            };
            let line = String::from_str(raw.substring_char(pos, end));
            proof {
                let seg = raw@.subrange(pos as int, j as int);
                if j > pos && raw@[j - 1] == '\r' {
                    assert(seg.last() == raw@[j - 1]);
                    assert(line@ =~= strip_cr(seg));
                } else {
                    if j > pos {
                        assert(seg.last() == raw@[j - 1]);
                    }
                    assert(line@ =~= strip_cr(seg));
                }
            }
            let ghost prev = out@;
            out.push(line);
            pos = j + 1;
            proof {
                assert(strs_view(out@) =~= strs_view(prev).push(line@));
                assert(strs_view(out@) + lines_from(raw@, pos as int) =~= lines_spec(raw@));
            }
        }
    }
    proof {
        assert(strs_view(out@) =~= strs_view(out@) + lines_from(raw@, pos as int));
    }
    out
}

/// The records encoded by a sequence of lines, in order, skipping every
/// line that does not hold the expected three fields.
pub open spec fn parse_lines(ls: Seq<Seq<char>>) -> Seq<CommitView>
    decreases ls.len(),
{
    if ls.len() == 0 {
        Seq::empty()
    } else {
        let rest = parse_lines(ls.drop_last());
        if line_well_formed(ls.last()) {
            rest.push(parse_line(ls.last()))
        } else {
            rest
        }
    }
}

/// The records encoded by raw log text: its lines, parsed in order, with
/// malformed lines skipped.
pub open spec fn parse_log_spec(text: Seq<char>) -> Seq<CommitView> {
    parse_lines(lines_spec(text))
}

/// Parse raw log text into commit records, one per well-formed line, in
/// input order; malformed lines are skipped.
pub fn parse_log(raw: &str) -> (commits: Vec<Commit>)
    ensures
        views_of(commits@) == parse_log_spec(raw@),
{
    let lines = parse_git_output(raw);
    let mut out: Vec<Commit> = Vec::new();
    let mut i: usize = 0;
    while i < lines.len()
        invariant
            i <= lines@.len(),
            strs_view(lines@) == lines_spec(raw@),
            views_of(out@) == parse_lines(strs_view(lines@).take(i as int)),
        decreases lines@.len() - i,
    {
        let ghost lv = strs_view(lines@);
        proof {
            assert(lv.take(i + 1).drop_last() =~= lv.take(i as int));
            assert(lv.take(i + 1).last() == lines@[i as int]@);
        }
        if line_has_fields(lines[i].as_str()) {
            let ghost prev = out@;
            out.push(Commit::new(lines[i].clone()));
            proof {
                assert(views_of(out@) =~= views_of(prev).push(parse_line(lines@[i as int]@)));
            }
        }
        i = i + 1;
    }
    proof {
        assert(strs_view(lines@).take(i as int) =~= strs_view(lines@));
    }
    out
}

} // verus!
