//! Laws of the engine: how classification, transitions, stripping and tag
//! extraction relate across calls.

use vstd::prelude::*;

use crate::text::{
    is_ws, is_word_char, ws_run_end, word_run_end, trim_end_idx, spec_trim,
    lemma_ws_run_end_bounds, lemma_word_run_end_bounds, lemma_ws_run_end_is, lemma_trim_end_idx,
};
use crate::classify::{
    LineKind, spec_kind, spec_indent, spec_body, is_task_line, is_header_line,
};
use crate::tags::{
    done_name, cancelled_name, tag_core_end, strip_from, spec_strip_tags, spec_strip_state_tag,
    tags_from, spec_tags, tag_open_at, no_tag_open, lemma_close_scan_end_is,
};
use crate::transitions::{
    marked_line, stamped_line, state_tag, mark_done_action, mark_cancelled_action, revert_action,
    convert_action, insert_below_action,
};
use crate::clock::valid_timestamp;
use crate::{PENDING_MARKER, DONE_MARKER, CANCELLED_MARKER};

verus! {

/// The kind a marker glyph stands for.
pub open spec fn kind_of_marker(marker: char) -> LineKind {
    if marker == PENDING_MARKER {
        LineKind::Pending
    } else if marker == DONE_MARKER {
        LineKind::Done
    } else {
        LineKind::Cancelled
    }
}

/// Every line built by a transition rule classifies as its target kind: a
/// line of shape `indentation + marker + space + rest` is a task line of the
/// marker's kind, keeps that indentation, and its body is `rest` without its
/// leading whitespace.
pub proof fn lemma_marked_line_classifies(ind: Seq<char>, marker: char, rest: Seq<char>)
    requires
        forall|k: int| 0 <= k < ind.len() ==> is_ws(ind[k]),
        marker == PENDING_MARKER || marker == DONE_MARKER || marker == CANCELLED_MARKER,
    ensures
        spec_kind(marked_line(ind, marker, rest)) == kind_of_marker(marker),
        spec_indent(marked_line(ind, marker, rest)) == ind,
        spec_body(marked_line(ind, marker, rest)) == rest.skip(ws_run_end(rest, 0)),
{
    let s = marked_line(ind, marker, rest);
    assert(s.len() == ind.len() + 2 + rest.len());
    assert(!is_ws(marker));
    assert(s[ind.len() as int] == marker);
    lemma_ws_run_end_is(s, 0, ind.len() as int);
    assert(is_ws(s[ind.len() + 1 as int]));
    assert(is_task_line(s, marker));
    assert(spec_indent(s) =~= ind);
    lemma_ws_run_end_bounds(rest, 0);
    let w = ws_run_end(rest, 0);
    assert forall|k: int| ind.len() + 1 <= k < ind.len() + 2 + w implies is_ws(s[k]) by {
        if k > ind.len() + 1 {
            assert(s[k] == rest[k - ind.len() - 2]);
        }
    }
    lemma_ws_run_end_is(s, ind.len() + 1 as int, ind.len() + 2 + w);
    assert(spec_body(s) =~= rest.skip(w));
}

/// A stamped line is the marked line whose rest is the body, a space, and the
/// state tag.
pub proof fn lemma_stamped_is_marked(
    ind: Seq<char>,
    marker: char,
    body: Seq<char>,
    name: Seq<char>,
    ts: Seq<char>,
)
    ensures
        stamped_line(ind, marker, body, name, ts) == marked_line(
            ind,
            marker,
            body + seq![' '] + state_tag(name, ts),
        ),
{
    assert(stamped_line(ind, marker, body, name, ts) =~= marked_line(
        ind,
        marker,
        body + seq![' '] + state_tag(name, ts),
    ));
}

/// Classification is total and deterministic, and the marker checks take
/// precedence over the header check: a task line ending in a colon is never a
/// header.
pub proof fn lemma_classification_precedence(s: Seq<char>)
    ensures
        spec_kind(s) == LineKind::Pending <==> is_task_line(s, PENDING_MARKER),
        spec_kind(s) == LineKind::Done <==> (is_task_line(s, DONE_MARKER) && !is_task_line(
            s,
            PENDING_MARKER,
        )),
        spec_kind(s) == LineKind::Cancelled <==> (is_task_line(s, CANCELLED_MARKER)
            && !is_task_line(s, PENDING_MARKER) && !is_task_line(s, DONE_MARKER)),
        spec_kind(s) == LineKind::Header <==> (is_header_line(s) && !is_task_line(
            s,
            PENDING_MARKER,
        ) && !is_task_line(s, DONE_MARKER) && !is_task_line(s, CANCELLED_MARKER)),
{
    let i = ws_run_end(s, 0);
    if is_task_line(s, PENDING_MARKER) && is_task_line(s, DONE_MARKER) {
        assert(s[i] == PENDING_MARKER && s[i] == DONE_MARKER);
        assert(false);
    }
}

/// A state-tag opening inside a subrange is one inside the whole.
pub proof fn lemma_no_tag_open_subrange(s: Seq<char>, name: Seq<char>, a: int, b: int)
    requires
        no_tag_open(s, name),
        0 <= a <= b <= s.len(),
    ensures
        no_tag_open(s.subrange(a, b), name),
{
    let t = s.subrange(a, b);
    assert forall|j: int| !tag_open_at(t, j, name) by {
        if tag_open_at(t, j, name) {
            assert(s.subrange(a + j + 1, a + j + 1 + name.len() as int) =~= t.subrange(
                j + 1,
                j + 1 + name.len() as int,
            ));
            assert(tag_open_at(s, a + j, name));
        }
    }
}

/// Where no state-tag opening occurs, no tag occurrence starts anywhere.
proof fn lemma_no_core_when_open_free(s: Seq<char>, name: Seq<char>, j: int)
    requires
        no_tag_open(s, name),
    ensures
        tag_core_end(s, j, name) == -1,
{
    if tag_core_end(s, j, name) != -1 {
        assert(tag_open_at(s, j, name));
    }
}

/// Stripping leaves a sequence without state-tag openings unchanged.
proof fn lemma_strip_from_noop(s: Seq<char>, i: int, name: Seq<char>)
    requires
        no_tag_open(s, name),
        0 <= i <= s.len(),
    ensures
        strip_from(s, i, name) == s.skip(i),
    decreases s.len() - i,
{
    if i < s.len() {
        let j = ws_run_end(s, i);
        lemma_no_core_when_open_free(s, name, j);
        lemma_strip_from_noop(s, i + 1, name);
        assert(strip_from(s, i, name) =~= s.skip(i));
    } else {
        assert(strip_from(s, i, name) =~= s.skip(i));
    }
}

/// Stripping a body free of state-tag openings returns it unchanged.
pub proof fn lemma_strip_tags_noop(s: Seq<char>, name: Seq<char>)
    requires
        no_tag_open(s, name),
    ensures
        spec_strip_tags(s, name) == s,
{
    lemma_strip_from_noop(s, 0, name);
    assert(s.skip(0) =~= s);
}

/// Trimming text whose ends are already clean changes nothing.
pub proof fn lemma_trim_of_clean(s: Seq<char>)
    requires
        s.len() > 0 ==> !is_ws(s[0]) && !is_ws(s.last()),
    ensures
        spec_trim(s) == s,
{
    lemma_trim_end_idx(s);
    if s.len() > 0 && trim_end_idx(s) < s.len() {
        assert(is_ws(s.last()));
    }
    assert(trim_end_idx(s) == s.len());
    let t = s.take(trim_end_idx(s));
    assert(t =~= s);
    lemma_ws_run_end_bounds(t, 0);
    if s.len() > 0 && ws_run_end(t, 0) > 0 {
        assert(is_ws(t[0]));
    }
    assert(spec_trim(s) =~= s);
}

/// The ends of a trimmed sequence are clean.
pub proof fn lemma_spec_trim_clean_ends(s: Seq<char>)
    ensures
        spec_trim(s).len() > 0 ==> !is_ws(spec_trim(s)[0]) && !is_ws(spec_trim(s).last()),
{
    lemma_trim_end_idx(s);
    let e = trim_end_idx(s);
    let t = s.take(e);
    lemma_ws_run_end_bounds(t, 0);
    let w = ws_run_end(t, 0);
    if spec_trim(s).len() > 0 {
        assert(w < t.len());
        assert(spec_trim(s)[0] == t[w]);
        assert(spec_trim(s).last() == t[t.len() - 1]);
        assert(t[t.len() - 1] == s[e - 1]);
    }
}

/// Trimming is idempotent.
pub proof fn lemma_trim_idempotent(s: Seq<char>)
    ensures
        spec_trim(spec_trim(s)) == spec_trim(s),
{
    lemma_spec_trim_clean_ends(s);
    lemma_trim_of_clean(spec_trim(s));
}

/// Stripping a state tag is idempotent wherever the first pass leaves no
/// state-tag opening behind; a second pass then changes nothing.  A pass can
/// leave an opening behind only when removals splice one together out of
/// separated pieces of the body.
pub proof fn lemma_strip_state_tag_idempotent(body: Seq<char>, kind: LineKind)
    requires
        kind == LineKind::Done ==> no_tag_open(spec_strip_tags(body, done_name()), done_name()),
        kind == LineKind::Cancelled ==> no_tag_open(
            spec_strip_tags(body, cancelled_name()),
            cancelled_name(),
        ),
    ensures
        spec_strip_state_tag(spec_strip_state_tag(body, kind), kind) == spec_strip_state_tag(
            body,
            kind,
        ),
{
    if kind == LineKind::Done || kind == LineKind::Cancelled {
        let name = if kind == LineKind::Done {
            done_name()
        } else {
            cancelled_name()
        };
        let r = spec_strip_tags(body, name);
        lemma_trim_end_idx(r);
        lemma_ws_run_end_bounds(r.take(trim_end_idx(r)), 0);
        lemma_no_tag_open_subrange(r, name, 0, trim_end_idx(r));
        let t = r.take(trim_end_idx(r));
        assert(t =~= r.subrange(0, trim_end_idx(r)));
        lemma_no_tag_open_subrange(t, name, ws_run_end(t, 0), t.len() as int);
        assert(spec_trim(r) =~= t.subrange(ws_run_end(t, 0), t.len() as int));
        lemma_strip_tags_noop(spec_trim(r), name);
        lemma_trim_idempotent(r);
    }
}

/// The body of a task line never starts with whitespace.
pub proof fn lemma_task_body_clean_start(s: Seq<char>)
    requires
        spec_kind(s) == LineKind::Pending || spec_kind(s) == LineKind::Done || spec_kind(s)
            == LineKind::Cancelled,
    ensures
        spec_body(s).len() > 0 ==> !is_ws(spec_body(s)[0]),
{
    let i = ws_run_end(s, 0);
    lemma_ws_run_end_bounds(s, 0);
    lemma_ws_run_end_bounds(s, i + 1);
}

/// A body with a state tag appended after one space.
pub open spec fn body_with_tag(body: Seq<char>, name: Seq<char>, ts: Seq<char>) -> Seq<char> {
    body + seq![' '] + state_tag(name, ts)
}

/// In `body + space + @name(ts)`, no tag occurrence starts at or before the
/// end of the body, and the appended tag's occurrence runs to the end.
proof fn lemma_core_positions_with_tag(body: Seq<char>, name: Seq<char>, ts: Seq<char>)
    requires
        valid_timestamp(ts),
        no_tag_open(body, name),
        forall|k: int| 0 <= k < name.len() ==> name[k] != ' ',
    ensures
        forall|j: int|
            j <= body.len() ==> #[trigger] tag_core_end(body_with_tag(body, name, ts), j, name)
                == -1,
        tag_core_end(body_with_tag(body, name, ts), body.len() + 1 as int, name) == body_with_tag(
            body,
            name,
            ts,
        ).len() as int,
{
    let full = body_with_tag(body, name, ts);
    let nl = name.len() as int;
    let bl = body.len() as int;
    assert forall|j: int|
        j <= bl implies #[trigger] tag_core_end(full, j, name) == -1 by {
        if 0 <= j && j + 1 + nl < full.len() && full[j] == '@' && full.subrange(j + 1, j + 1 + nl)
            == name && full[j + 1 + nl] == '(' {
            let open = j + 1 + nl;
            assert(full[bl] == ' ');
            assert(j < bl);
            if open < bl {
                assert(body.subrange(j + 1, j + 1 + nl) =~= full.subrange(j + 1, j + 1 + nl));
                assert(tag_open_at(body, j, name));
            } else if open == bl {
                assert(full[open] == ' ');
            } else {
                assert(full.subrange(j + 1, j + 1 + nl)[bl - j - 1] == name[bl - j - 1]);
                assert(full[bl] == name[bl - j - 1]);
            }
        }
    }
    let p = bl + 1;
    let tag = state_tag(name, ts);
    assert(full[p] == tag[0]);
    assert(full.subrange(p + 1, p + 1 + nl) =~= name);
    assert(full[p + 1 + nl] == tag[1 + nl]);
    let open = p + 1 + nl;
    assert forall|t: int| open + 1 <= t < full.len() - 1 implies full[t] != ')' by {
        assert(full[t] == ts[t - open - 1]);
    }
    assert(full[full.len() - 1] == ')');
    lemma_close_scan_end_is(full, open + 1, full.len() - 1);
    assert(tag_core_end(full, p, name) == full.len() as int);
}

/// Stripping `body + space + @name(ts)` from position `i` keeps the body's
/// characters up to its trailing whitespace and removes the rest.
proof fn lemma_strip_from_with_tag(body: Seq<char>, name: Seq<char>, ts: Seq<char>, i: int)
    requires
        valid_timestamp(ts),
        no_tag_open(body, name),
        forall|k: int| 0 <= k < name.len() ==> name[k] != ' ',
        0 <= i <= trim_end_idx(body),
    ensures
        strip_from(body_with_tag(body, name, ts), i, name) == body.subrange(i, trim_end_idx(body)),
    decreases trim_end_idx(body) - i,
{
    let full = body_with_tag(body, name, ts);
    let bl = body.len() as int;
    let te = trim_end_idx(body);
    lemma_trim_end_idx(body);
    lemma_core_positions_with_tag(body, name, ts);
    if i == te {
        assert forall|k: int| i <= k < bl + 1 implies is_ws(full[k]) by {
            if k < bl {
                assert(full[k] == body[k]);
            } else {
                assert(full[k] == ' ');
            }
        }
        assert(full[bl + 1] == state_tag(name, ts)[0]);
        assert(!is_ws(full[bl + 1]));
        lemma_ws_run_end_is(full, i, bl + 1);
        let e = tag_core_end(full, bl + 1, name);
        assert(e == full.len() as int);
        assert(strip_from(full, e, name) =~= body.subrange(te, te));
    } else {
        assert(full[i] == body[i]);
        let j = ws_run_end(full, i);
        lemma_ws_run_end_bounds(full, i);
        assert(!is_ws(body[te - 1]));
        assert(full[te - 1] == body[te - 1]);
        if j > te - 1 {
            assert(is_ws(full[te - 1]));
        }
        assert(tag_core_end(full, j, name) == -1);
        lemma_strip_from_with_tag(body, name, ts, i + 1);
        assert(seq![body[i]] + body.subrange(i + 1, te) =~= body.subrange(i, te));
    }
}

/// Stripping the state tag just stamped onto a body yields the trimmed body.
pub proof fn lemma_strip_appended_tag(body: Seq<char>, name: Seq<char>, ts: Seq<char>)
    requires
        valid_timestamp(ts),
        no_tag_open(body, name),
        forall|k: int| 0 <= k < name.len() ==> name[k] != ' ',
    ensures
        spec_trim(spec_strip_tags(body_with_tag(body, name, ts), name)) == spec_trim(body),
{
    lemma_trim_end_idx(body);
    let te = trim_end_idx(body);
    lemma_strip_from_with_tag(body, name, ts, 0);
    let t = body.take(te);
    assert(body.subrange(0, te) =~= t);
    if te > 0 {
        assert(t.last() == body[te - 1]);
        assert(!is_ws(t.last()));
    }
    assert(trim_end_idx(t) == te);
    assert(t.take(trim_end_idx(t)) =~= t);
    assert(spec_trim(t) =~= spec_trim(body));
}

/// The state-tag names hold no space.
proof fn lemma_state_names_wordy()
    ensures
        forall|k: int| 0 <= k < done_name().len() ==> done_name()[k] != ' ',
        forall|k: int| 0 <= k < cancelled_name().len() ==> cancelled_name()[k] != ' ',
{
    reveal_strlit("done");
    reveal_strlit("cancelled");
}

/// Round trip: stamping a pending line as done or cancelled and reverting the
/// result restores the line's indentation and its body up to trimming,
/// provided the timestamp can stand in a tag and the body holds no opening of
/// the state-tag name of its own.
pub proof fn lemma_pending_round_trip(line: Seq<char>, marker: char, ts: Seq<char>)
    requires
        spec_kind(line) == LineKind::Pending,
        marker == DONE_MARKER || marker == CANCELLED_MARKER,
        valid_timestamp(ts),
        marker == DONE_MARKER ==> no_tag_open(spec_body(line), done_name()),
        marker == CANCELLED_MARKER ==> no_tag_open(spec_body(line), cancelled_name()),
    ensures
        ({
            let name = if marker == DONE_MARKER {
                done_name()
            } else {
                cancelled_name()
            };
            let stamped = stamped_line(spec_indent(line), marker, spec_body(line), name, ts);
            &&& spec_kind(stamped) == kind_of_marker(marker)
            &&& spec_indent(stamped) == spec_indent(line)
            &&& spec_strip_state_tag(spec_body(stamped), spec_kind(stamped)) == spec_trim(
                spec_body(line),
            )
        }),
{
    let name = if marker == DONE_MARKER {
        done_name()
    } else {
        cancelled_name()
    };
    let ind = spec_indent(line);
    let body = spec_body(line);
    let stamped = stamped_line(ind, marker, body, name, ts);
    let rest = body_with_tag(body, name, ts);
    lemma_ws_run_end_bounds(line, 0);
    lemma_state_names_wordy();
    lemma_stamped_is_marked(ind, marker, body, name, ts);
    lemma_marked_line_classifies(ind, marker, rest);
    lemma_task_body_clean_start(line);
    assert(spec_kind(stamped) == kind_of_marker(marker));
    if body.len() > 0 {
        assert(rest[0] == body[0]);
        lemma_ws_run_end_is(rest, 0, 0);
        assert(spec_body(stamped) =~= rest);
        lemma_strip_appended_tag(body, name, ts);
    } else {
        let tag = state_tag(name, ts);
        assert(rest[0] == ' ');
        assert(rest[1] == tag[0]);
        lemma_ws_run_end_is(rest, 0, 1);
        assert(spec_body(stamped) =~= tag);
        lemma_core_positions_with_tag(body, name, ts);
        assert(rest =~= body_with_tag(body, name, ts));
        assert(tag =~= rest.skip(1));
        lemma_strip_from_with_tag(body, name, ts, 0);
        assert(trim_end_idx(body) == 0);
        assert(strip_from(rest, 0, name) =~= Seq::<char>::empty());
        assert(tag_core_end(rest, 1, name) == rest.len() as int);
        assert(rest[0] == ' ' && !is_ws(rest[1]));
        lemma_ws_run_end_is(rest, 0, 1);
        assert(strip_from(tag, 0, name) == Seq::<char>::empty()) by {
            assert forall|t: int|
                0 <= t < tag.len() implies tag[t] == rest[t + 1] by {}
            assert(tag.subrange(1, 1 + name.len() as int) =~= rest.subrange(
                2,
                2 + name.len() as int,
            ));
            assert(tag[0] == '@');
            assert(tag[1 + name.len() as int] == '(');
            assert forall|t: int|
                2 + name.len() <= t < tag.len() - 1 implies tag[t] != ')' by {
                assert(tag[t] == ts[t - 2 - name.len()]);
            }
            assert(tag[tag.len() - 1] == ')');
            lemma_close_scan_end_is(tag, 2 + name.len() as int, tag.len() - 1);
            lemma_ws_run_end_is(tag, 0, 0);
            assert(tag_core_end(tag, 0, name) == tag.len() as int);
            assert(strip_from(tag, tag.len() as int, name) =~= Seq::<char>::empty());
        }
        assert(spec_trim(Seq::<char>::empty()) =~= Seq::<char>::empty());
        assert(spec_trim(body) =~= Seq::<char>::empty());
    }
}

/// Reclassifying the replacement text of each transition rule yields the
/// rule's target kind: stamping yields a done or cancelled line, reverting
/// and converting yield pending lines, and so does the inserted fresh task.
pub proof fn lemma_rules_reclassify(line: Seq<char>, idx: int, ts: Seq<char>)
    ensures
        spec_kind(mark_done_action(line, idx, ts).new_text) == LineKind::Done,
        spec_kind(mark_cancelled_action(line, idx, ts).new_text) == LineKind::Cancelled,
        spec_kind(revert_action(line, idx, done_name()).new_text) == LineKind::Pending,
        spec_kind(revert_action(line, idx, cancelled_name()).new_text) == LineKind::Pending,
        spec_kind(convert_action(line, idx).new_text) == LineKind::Pending,
        spec_kind(insert_below_action(line, idx).new_text) == LineKind::Pending,
{
    let ind = spec_indent(line);
    let body = spec_body(line);
    lemma_ws_run_end_bounds(line, 0);
    lemma_stamped_is_marked(ind, DONE_MARKER, body, done_name(), ts);
    lemma_marked_line_classifies(ind, DONE_MARKER, body_with_tag(body, done_name(), ts));
    lemma_stamped_is_marked(ind, CANCELLED_MARKER, body, cancelled_name(), ts);
    lemma_marked_line_classifies(ind, CANCELLED_MARKER, body_with_tag(body, cancelled_name(), ts));
    lemma_marked_line_classifies(
        ind,
        PENDING_MARKER,
        spec_trim(spec_strip_tags(body, done_name())),
    );
    lemma_marked_line_classifies(
        ind,
        PENDING_MARKER,
        spec_trim(spec_strip_tags(body, cancelled_name())),
    );
    lemma_marked_line_classifies(ind, PENDING_MARKER, spec_trim(line));
    lemma_marked_line_classifies(ind, PENDING_MARKER, seq!['\n']);
    assert(insert_below_action(line, idx).new_text =~= marked_line(ind, PENDING_MARKER, seq![
        '\n',
    ]));
    assert(!is_ws('\n'));
    lemma_ws_run_end_is(seq!['\n'], 0, 0);
}

/// Whether a tag token starts at position `i` of `d`: an `@` followed by at
/// least one word character.
pub open spec fn is_tag_start(d: Seq<char>, i: int) -> bool {
    0 <= i && i + 1 < d.len() && d[i] == '@' && is_word_char(d[i + 1])
}

/// The name of the tag token starting at `i`: the maximal word run after the
/// `@`.
pub open spec fn tag_at(d: Seq<char>, i: int) -> Seq<char> {
    d.subrange(i + 1, word_run_end(d, i + 1))
}

proof fn lemma_tags_from_complete(d: Seq<char>, p: int, i: int)
    requires
        0 <= p <= i,
        is_tag_start(d, i),
    ensures
        tags_from(d, p).contains(tag_at(d, i)),
    decreases i - p,
{
    lemma_word_run_end_bounds(d, i + 1);
    if p == i {
        lemma_word_run_end_bounds(d, p + 1);
    } else {
        if d[p] == '@' && p + 1 < d.len() && is_word_char(d[p + 1]) {
            let e = word_run_end(d, p + 1);
            lemma_word_run_end_bounds(d, p + 1);
            if e > i {
                assert(is_word_char(d[i]));
            }
            assert(e <= i);
            lemma_tags_from_complete(d, e, i);
        } else {
            lemma_tags_from_complete(d, p + 1, i);
        }
    }
}

/// Extraction is complete: the name of every tag token standing in `d` is
/// among the extracted tags.
pub proof fn lemma_tags_complete(d: Seq<char>, i: int)
    requires
        is_tag_start(d, i),
    ensures
        spec_tags(d).contains(tag_at(d, i)),
{
    lemma_tags_from_complete(d, 0, i);
}

proof fn lemma_tags_from_sound(d: Seq<char>, p: int, n: Seq<char>)
    requires
        0 <= p,
        tags_from(d, p).contains(n),
    ensures
        exists|i: int| #[trigger] is_tag_start(d, i) && p <= i && tag_at(d, i) == n,
    decreases d.len() - p,
{
    if p < d.len() {
        if d[p] == '@' && p + 1 < d.len() && is_word_char(d[p + 1]) {
            let e = word_run_end(d, p + 1);
            lemma_word_run_end_bounds(d, p + 1);
            if n == d.subrange(p + 1, e) {
                assert(is_tag_start(d, p) && p <= p && tag_at(d, p) == n);
            } else {
                lemma_tags_from_sound(d, e, n);
            }
        } else {
            lemma_tags_from_sound(d, p + 1, n);
        }
    }
}

/// Extraction is sound: every extracted tag is the name of a tag token
/// standing in `d`.
pub proof fn lemma_tags_sound(d: Seq<char>, n: Seq<char>)
    requires
        spec_tags(d).contains(n),
    ensures
        exists|i: int| #[trigger] is_tag_start(d, i) && tag_at(d, i) == n,
{
    lemma_tags_from_sound(d, 0, n);
    let i = choose|i: int| #[trigger] is_tag_start(d, i) && 0 <= i && tag_at(d, i) == n;
    assert(is_tag_start(d, i) && tag_at(d, i) == n);
}

} // verus!

