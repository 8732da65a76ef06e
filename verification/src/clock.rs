//! The clock.
//!
//! Transitions are stamped with the local wall-clock time read at the moment
//! the action is built.  The engine itself takes the timestamp as an
//! argument; this module supplies the one the server uses.

use vstd::prelude::*;

use crate::text::str_to_chars;
use crate::document::{spec_lines, code_actions_in};
use crate::transitions::{CodeActionItem, models_of, spec_actions};

verus! {

/// An ASCII decimal digit.
pub open spec fn is_ascii_digit(c: char) -> bool {
    '0' <= c && c <= '9'
}

/// The shape of every stamp the clock produces: two zero-padded digits for
/// year, month, day, hour and minute, joined by `-`, `-`, a space and `:` —
/// fourteen characters in all.
pub open spec fn timestamp_shape(ts: Seq<char>) -> bool {
    &&& ts.len() == 14
    &&& ts[2] == '-'
    &&& ts[5] == '-'
    &&& ts[8] == ' '
    &&& ts[11] == ':'
    &&& forall|i: int|
        0 <= i < 14 && i != 2 && i != 5 && i != 8 && i != 11 ==> is_ascii_digit(#[trigger] ts[i])
}

/// What the transition engine needs of a timestamp value: non-empty and free
/// of closing parentheses, so the stamped tag's value ends at the tag's own
/// closing parenthesis.
pub open spec fn valid_timestamp(ts: Seq<char>) -> bool {
    ts.len() > 0 && forall|i: int| 0 <= i < ts.len() ==> ts[i] != ')'
}

/// A stamp of the clock's shape can stand in a tag: digits, `-`, space and
/// `:` are all distinct from the closing parenthesis.
pub proof fn lemma_timestamp_shape_valid(ts: Seq<char>)
    requires
        timestamp_shape(ts),
    ensures
        valid_timestamp(ts),
{
    assert forall|i: int| 0 <= i < ts.len() implies ts[i] != ')' by {
        if i != 2 && i != 5 && i != 8 && i != 11 {
            assert(is_ascii_digit(ts[i]));
        }
    }
}

/// Relies on chrono's `Local::now` and `format` with `%y-%m-%d %H:%M`: each
/// specifier writes exactly two zero-padded decimal digits (year modulo 100,
/// month, day, 24-hour hour, minute) and the literals are `-`, `-`, a space
/// and `:`, so whatever instant the clock reads, the text has the fourteen-
/// character shape above.
#[verifier::external_body]
fn local_timestamp() -> (r: String)
    ensures
        timestamp_shape(r@),
{
    chrono::Local::now().format("%y-%m-%d %H:%M").to_string()
}

/// The current local wall-clock time, formatted for a state tag.
pub fn current_timestamp() -> (r: Vec<char>)
    ensures
        timestamp_shape(r@),
        valid_timestamp(r@),
{
    let s = local_timestamp();
    proof {
        lemma_timestamp_shape_valid(s@);
    }
    str_to_chars(s.as_str())
}

/// Every action for the line at `line_idx` of `text`, stamped with the local
/// wall-clock time at the moment of the call.
pub fn code_actions_now(text: &Vec<char>, line_idx: usize) -> (r: Vec<CodeActionItem>)
    ensures
        exists|ts: Seq<char>|
            #[trigger] timestamp_shape(ts) && valid_timestamp(ts) && if (line_idx as int)
                < spec_lines(text@).len() {
                models_of(r@) == spec_actions(
                    spec_lines(text@)[line_idx as int],
                    line_idx as int,
                    ts,
                )
            } else {
                r@.len() == 0
            },
{
    let ts = current_timestamp();
    let r = code_actions_in(text, line_idx, &ts);
    proof {
        let w = ts@;
        assert(timestamp_shape(w) && valid_timestamp(w) && if (line_idx as int) < spec_lines(
            text@,
        ).len() {
            models_of(r@) == spec_actions(spec_lines(text@)[line_idx as int], line_idx as int, w)
        } else {
            r@.len() == 0
        });
    }
    r
}

} // verus!
