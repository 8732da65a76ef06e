//! Documents as sequences of lines.
//!
//! A document's text is split on newline characters; a carriage return at the
//! end of a line is dropped, and a trailing newline does not open an empty
//! final line.  A request for a line index at or beyond the number of lines
//! yields no actions rather than an error.

use vstd::prelude::*;

use crate::text::copy_range;
use crate::transitions::{CodeActionItem, models_of, spec_actions, actions_for_line};

verus! {

/// First index `j >= i` holding a newline, or the length of `s`.
pub open spec fn nl_scan_end(s: Seq<char>, i: int) -> int
    decreases s.len() - i,
{
    if i < 0 {
        i
    } else if i >= s.len() {
        s.len() as int
    } else if s[i] == '\n' {
        i
    } else {
        nl_scan_end(s, i + 1)
    }
}

pub proof fn lemma_nl_scan_end_bounds(s: Seq<char>, i: int)
    requires
        0 <= i <= s.len(),
    ensures
        i <= nl_scan_end(s, i) <= s.len(),
        forall|t: int| i <= t < nl_scan_end(s, i) ==> s[t] != '\n',
        nl_scan_end(s, i) < s.len() ==> s[nl_scan_end(s, i)] == '\n',
    decreases s.len() - i,
{
    if i < s.len() && s[i] != '\n' {
        lemma_nl_scan_end_bounds(s, i + 1);
    }
}

/// A line with a trailing carriage return dropped: a line ending is a
/// newline or a carriage return followed by a newline.
pub open spec fn strip_cr(t: Seq<char>) -> Seq<char> {
    if t.len() > 0 && t.last() == '\r' {
        t.drop_last()
    } else {
        t
    }
}

/// The lines of `s` from position `i` on.
pub open spec fn lines_from(s: Seq<char>, i: int) -> Seq<Seq<char>>
    decreases s.len() - i,
{
    if i < 0 || i >= s.len() {
        Seq::empty()
    } else {
        let j = nl_scan_end(s, i);
        if i <= j < s.len() {
            seq![strip_cr(s.subrange(i, j))] + lines_from(s, j + 1)
        } else {
            seq![s.subrange(i, s.len() as int)]
        }
    }
}

/// The lines of a document's text.
pub open spec fn spec_lines(s: Seq<char>) -> Seq<Seq<char>> {
    lines_from(s, 0)
}

/// The views of a vector of lines.
pub open spec fn line_views(v: Seq<Vec<char>>) -> Seq<Seq<char>> {
    v.map_values(|l: Vec<char>| l@)
}

/// Split a document's text into lines.
#[verifier::loop_isolation(false)]
pub fn split_lines(text: &Vec<char>) -> (r: Vec<Vec<char>>)
    ensures
        line_views(r@) == spec_lines(text@),
{
    let mut out: Vec<Vec<char>> = Vec::new();
    let mut i: usize = 0;
    while i < text.len()
        invariant
            i <= text@.len(),
            line_views(out@) + lines_from(text@, i as int) == spec_lines(text@),
        decreases text@.len() - i,
    {
        proof {
            lemma_nl_scan_end_bounds(text@, i as int);
        }
        let mut j = i;
        while j < text.len() && text[j] != '\n'
            invariant
                i <= j <= text@.len(),
                nl_scan_end(text@, i as int) == nl_scan_end(text@, j as int),
            decreases text@.len() - j,
        {
            j = j + 1;
        }
        let mut line = copy_range(text, i, j);
        if j < text.len() && line.len() > 0 && line[line.len() - 1] == '\r' {
            line.pop();
        }
        proof {
            if j < text@.len() {
                assert(line@ =~= strip_cr(text@.subrange(i as int, j as int)));
            }
        }
        let ghost old_out = out@;
        out.push(line);
        proof {
            assert(line_views(out@) =~= line_views(old_out).push(line@));
        }
        if j < text.len() {
            proof {
                assert(line_views(out@) + lines_from(text@, j + 1 as int) =~= spec_lines(text@));
            }
            i = j + 1;
        } else {
            proof {
                assert(text@.subrange(i as int, j as int) =~= text@.subrange(
                    i as int,
                    text@.len() as int,
                ));
                assert(line_views(out@) + lines_from(text@, j as int) =~= spec_lines(text@));
            }
            i = j;
        }
    }
    proof {
        assert(line_views(out@) =~= spec_lines(text@));
    }
    out
}

/// Every action for the line at `line_idx` in the document `text`, stamped
/// with `ts`.  An index at or beyond the last line yields no actions.
pub fn code_actions_in(text: &Vec<char>, line_idx: usize, ts: &Vec<char>) -> (r: Vec<
    CodeActionItem,
>)
    ensures
        (line_idx as int) >= spec_lines(text@).len() ==> r@.len() == 0,
        (line_idx as int) < spec_lines(text@).len() ==> models_of(r@) == spec_actions(
            spec_lines(text@)[line_idx as int],
            line_idx as int,
            ts@,
        ),
{
    let lines = split_lines(text);
    if line_idx >= lines.len() {
        Vec::new()
    } else {
        proof {
            assert(line_views(lines@)[line_idx as int] == lines@[line_idx as int]@);
        }
        actions_for_line(&lines[line_idx], line_idx, ts)
    }
}

} // verus!
