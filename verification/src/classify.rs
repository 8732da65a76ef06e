//! The line classifier.
//!
//! A line is pending, done, or cancelled when it starts with optional
//! whitespace, the matching marker glyph, and at least one whitespace
//! character; the body is what follows that run of whitespace.  A line that is
//! not a task line and whose trailing-trimmed text ends with a colon is a
//! project header; anything else is plain text.  Marker checks take precedence
//! over the header check, so a task line ending in a colon stays a task line.

use vstd::prelude::*;

use crate::text::{
    is_ws, ws_run_end, trim_end_idx, lemma_ws_run_end_bounds, lemma_trim_end_idx, char_is_ws,
    scan_ws_end, copy_range,
};
use crate::{PENDING_MARKER, DONE_MARKER, CANCELLED_MARKER};

verus! {

/// The mutually exclusive classification of a line.
#[derive(Clone, Copy, Debug, PartialEq, Eq, Structural)]
pub enum LineKind {
    Pending,
    Done,
    Cancelled,
    Header,
    Plain,
}

/// Whether `s` is a task line carrying `marker`: optional whitespace, the
/// marker, then at least one whitespace character.
pub open spec fn is_task_line(s: Seq<char>, marker: char) -> bool {
    let i = ws_run_end(s, 0);
    i + 1 < s.len() && s[i] == marker && is_ws(s[i + 1])
}

/// Whether `s`, with trailing whitespace removed, ends with a colon.
pub open spec fn is_header_line(s: Seq<char>) -> bool {
    let t = s.take(trim_end_idx(s));
    t.len() > 0 && t.last() == ':'
}

/// Classification of a line, in fixed precedence order: pending, done,
/// cancelled markers first, then the header check, then plain.
pub open spec fn spec_kind(s: Seq<char>) -> LineKind {
    if is_task_line(s, PENDING_MARKER) {
        LineKind::Pending
    } else if is_task_line(s, DONE_MARKER) {
        LineKind::Done
    } else if is_task_line(s, CANCELLED_MARKER) {
        LineKind::Cancelled
    } else if is_header_line(s) {
        LineKind::Header
    } else {
        LineKind::Plain
    }
}

/// The leading whitespace of a line, preserved verbatim by every rule.
pub open spec fn spec_indent(s: Seq<char>) -> Seq<char> {
    s.take(ws_run_end(s, 0))
}

/// The body of a line: for a task line, what follows the whitespace after the
/// marker; otherwise, what follows the indentation.
pub open spec fn spec_body(s: Seq<char>) -> Seq<char> {
    let i = ws_run_end(s, 0);
    if is_task_line(s, PENDING_MARKER) || is_task_line(s, DONE_MARKER) || is_task_line(
        s,
        CANCELLED_MARKER,
    ) {
        s.skip(ws_run_end(s, i + 1))
    } else {
        s.skip(i)
    }
}

/// A classified line: its kind, indentation, and body.
pub struct ParsedLine {
    pub kind: LineKind,
    pub indent: Vec<char>,
    pub body: Vec<char>,
}

/// Classify a line and split it into indentation and body.
#[verifier::loop_isolation(false)]
pub fn parse_line(line: &Vec<char>) -> (r: ParsedLine)
    ensures
        r.kind == spec_kind(line@),
        r.indent@ == spec_indent(line@),
        r.body@ == spec_body(line@),
{
    proof {
        lemma_ws_run_end_bounds(line@, 0);
    }
    let i = scan_ws_end(line, 0);
    let is_task = i < line.len() && (line[i] == PENDING_MARKER || line[i] == DONE_MARKER
        || line[i] == CANCELLED_MARKER) && i + 1 < line.len() && char_is_ws(line[i + 1]);
    let indent = copy_range(line, 0, i);
    proof {
        assert(indent@ =~= spec_indent(line@));
    }
    if is_task {
        let kind = if line[i] == PENDING_MARKER {
            LineKind::Pending
        } else if line[i] == DONE_MARKER {
            LineKind::Done
        } else {
            LineKind::Cancelled
        };
        proof {
            lemma_ws_run_end_bounds(line@, i + 1);
        }
        let j = scan_ws_end(line, i + 1);
        let body = copy_range(line, j, line.len());
        proof {
            assert(body@ =~= spec_body(line@));
        }
        ParsedLine { kind, indent, body }
    } else {
        proof {
            lemma_trim_end_idx(line@);
            assert(line@.take(line@.len() as int) =~= line@);
        }
        let mut end = line.len();
        while end > 0 && char_is_ws(line[end - 1])
            invariant
                trim_end_idx(line@) <= end <= line@.len(),
                trim_end_idx(line@.take(end as int)) == trim_end_idx(line@),
            decreases end,
        {
            proof {
                assert(line@.take(end as int).drop_last() =~= line@.take(end - 1 as int));
                lemma_trim_end_idx(line@.take(end - 1 as int));
            }
            end = end - 1;
        }
        proof {
            assert(end == trim_end_idx(line@));
        }
        let is_header = end > 0 && line[end - 1] == ':';
        proof {
            let t = line@.take(trim_end_idx(line@));
            if end > 0 {
                assert(t.last() == line@[end - 1]);
            }
            assert(is_header == is_header_line(line@));
        }
        let kind = if is_header {
            LineKind::Header
        } else {
            LineKind::Plain
        };
        let body = copy_range(line, i, line.len());
        proof {
            assert(body@ =~= spec_body(line@));
        }
        ParsedLine { kind, indent, body }
    }
}

} // verus!
