//! The tag extractor.
//!
//! Tags are tokens of the form `@name` with `name` a run of word characters.
//! Extraction scans a whole document left to right, non-overlapping, and
//! de-duplicates the names.  State-tag stripping removes every occurrence of
//! `@done(...)` (or `@cancelled(...)`) together with the whitespace run in
//! front of it, then trims the result; the parenthesized value must be
//! non-empty and free of closing parentheses, as the format's timestamps are.

use vstd::prelude::*;

use crate::text::{
    is_word_char, ws_run_end, word_run_end, lemma_ws_run_end_bounds, lemma_word_run_end_bounds,
    spec_trim, char_is_word, scan_ws_end, scan_word_end, trim, copy_range, chars_eq, str_to_chars,
};
use crate::classify::LineKind;

verus! {

/// The tag name that marks a completed task.
pub open spec fn done_name() -> Seq<char> {
    "done"@
}

/// The tag name that marks a cancelled task.
pub open spec fn cancelled_name() -> Seq<char> {
    "cancelled"@
}

/// The characters of the done tag name.
pub fn done_name_chars() -> (r: Vec<char>)
    ensures
        r@ == done_name(),
{
    str_to_chars("done")
}

/// The characters of the cancelled tag name.
pub fn cancelled_name_chars() -> (r: Vec<char>)
    ensures
        r@ == cancelled_name(),
{
    str_to_chars("cancelled")
}

/// First index `k' >= k` holding a closing parenthesis, or the length of `s`.
pub open spec fn close_scan_end(s: Seq<char>, k: int) -> int
    decreases s.len() - k,
{
    if k < 0 {
        k
    } else if k >= s.len() {
        s.len() as int
    } else if s[k] == ')' {
        k
    } else {
        close_scan_end(s, k + 1)
    }
}

pub proof fn lemma_close_scan_end_bounds(s: Seq<char>, k: int)
    requires
        0 <= k <= s.len(),
    ensures
        k <= close_scan_end(s, k) <= s.len(),
        forall|t: int| k <= t < close_scan_end(s, k) ==> s[t] != ')',
        close_scan_end(s, k) < s.len() ==> s[close_scan_end(s, k)] == ')',
    decreases s.len() - k,
{
    if k < s.len() && s[k] != ')' {
        lemma_close_scan_end_bounds(s, k + 1);
    }
}

/// Scan forward from `k` to the first closing parenthesis.
pub fn scan_close_end(s: &Vec<char>, k: usize) -> (r: usize)
    requires
        k <= s@.len(),
    ensures
        r == close_scan_end(s@, k as int),
{
    let mut j = k;
    while j < s.len() && s[j] != ')'
        invariant
            k <= j <= s@.len(),
            close_scan_end(s@, k as int) == close_scan_end(s@, j as int),
        decreases s@.len() - j,
    {
        j = j + 1;
    }
    j
}

/// The scan for a closing parenthesis stops exactly at the first one.
pub proof fn lemma_close_scan_end_is(s: Seq<char>, k: int, n: int)
    requires
        0 <= k <= n <= s.len(),
        forall|t: int| k <= t < n ==> s[t] != ')',
        n < s.len() ==> s[n] == ')',
    ensures
        close_scan_end(s, k) == n,
{
    lemma_close_scan_end_bounds(s, k);
    let c = close_scan_end(s, k);
    if c < n {
        assert(s[c] != ')');
    } else if c > n {
        assert(s[n] != ')');
    }
}

/// Whether the opening `@name(` of a state tag stands at position `j`.
pub open spec fn tag_open_at(s: Seq<char>, j: int, name: Seq<char>) -> bool {
    0 <= j && j + 1 + name.len() < s.len() && s[j] == '@' && s.subrange(j + 1, j + 1 + name.len())
        == name && s[j + 1 + name.len()] == '('
}

/// No state-tag opening of `name` stands anywhere in `s`.
pub open spec fn no_tag_open(s: Seq<char>, name: Seq<char>) -> bool {
    forall|j: int| !tag_open_at(s, j, name)
}

/// End index (exclusive) of a state-tag occurrence `@name(value)` starting
/// exactly at `j`, where `value` is non-empty and holds no closing
/// parenthesis; `-1` when no such occurrence starts at `j`.
pub open spec fn tag_core_end(s: Seq<char>, j: int, name: Seq<char>) -> int {
    if 0 <= j && j + 1 + name.len() < s.len() && s[j] == '@' && s.subrange(
        j + 1,
        j + 1 + name.len(),
    ) == name && s[j + 1 + name.len()] == '(' {
        let open = j + 1 + name.len();
        let c = close_scan_end(s, open + 1);
        if c < s.len() && c >= open + 2 {
            c + 1
        } else {
            -1
        }
    } else {
        -1
    }
}

pub proof fn lemma_tag_core_end_bounds(s: Seq<char>, j: int, name: Seq<char>)
    ensures
        tag_core_end(s, j, name) != -1 ==> j + name.len() + 3 <= tag_core_end(s, j, name)
            <= s.len(),
{
    if 0 <= j && j + 1 + name.len() < s.len() && s[j] == '@' && s.subrange(
        j + 1,
        j + 1 + name.len(),
    ) == name && s[j + 1 + name.len()] == '(' {
        lemma_close_scan_end_bounds(s, j + 2 + name.len());
    }
}

/// Decide whether a state-tag occurrence of `name` starts at `j`, and return
/// its end index.
#[verifier::loop_isolation(false)]
pub fn tag_core_end_at(s: &Vec<char>, j: usize, name: &Vec<char>) -> (r: Option<usize>)
    requires
        j <= s@.len(),
    ensures
        match r {
            Some(e) => tag_core_end(s@, j as int, name@) == e as int && j < e <= s@.len(),
            None => tag_core_end(s@, j as int, name@) == -1,
        },
{
    proof {
        lemma_tag_core_end_bounds(s@, j as int, name@);
    }
    if j >= s.len() {
        return None;
    }
    if s.len() - (j + 1) <= name.len() {
        return None;
    }
    if s[j] != '@' {
        return None;
    }
    let mut t: usize = 0;
    while t < name.len()
        invariant
            t <= name@.len(),
            forall|k: int| 0 <= k < t ==> s@[j + 1 + k] == name@[k],
        decreases name@.len() - t,
    {
        if s[j + 1 + t] != name[t] {
            proof {
                assert(s@.subrange(j + 1, j + 1 + name@.len() as int)[t as int] != name@[t as int]);
            }
            return None;
        }
        t = t + 1;
    }
    proof {
        assert(s@.subrange(j + 1, j + 1 + name@.len() as int) =~= name@);
    }
    let open = j + 1 + name.len();
    if s[open] != '(' {
        return None;
    }
    proof {
        lemma_close_scan_end_bounds(s@, open + 1 as int);
    }
    let c = scan_close_end(s, open + 1);
    if c < s.len() && c >= open + 2 {
        Some(c + 1)
    } else {
        None
    }
}

/// One left-to-right pass removing every `whitespace + @name(value)`
/// occurrence, as a single scan with matches taken at the leftmost possible
/// start.
pub open spec fn strip_from(s: Seq<char>, i: int, name: Seq<char>) -> Seq<char>
    decreases s.len() - i,
{
    if i < 0 || i >= s.len() {
        Seq::empty()
    } else {
        let j = ws_run_end(s, i);
        let e = tag_core_end(s, j, name);
        if e != -1 && i < e <= s.len() {
            strip_from(s, e, name)
        } else {
            seq![s[i]] + strip_from(s, i + 1, name)
        }
    }
}

/// Remove every whitespace-prefixed `@name(value)` occurrence from `s`.
pub open spec fn spec_strip_tags(s: Seq<char>, name: Seq<char>) -> Seq<char> {
    strip_from(s, 0, name)
}

/// What `strip_state_tag` returns: for a done or cancelled body, the body with
/// its state tags removed and the ends trimmed; other kinds pass through.
pub open spec fn spec_strip_state_tag(s: Seq<char>, kind: LineKind) -> Seq<char> {
    match kind {
        LineKind::Done => spec_trim(spec_strip_tags(s, done_name())),
        LineKind::Cancelled => spec_trim(spec_strip_tags(s, cancelled_name())),
        _ => s,
    }
}

/// Remove every whitespace-prefixed `@name(value)` occurrence from `s`.
#[verifier::loop_isolation(false)]
pub fn strip_tags(s: &Vec<char>, name: &Vec<char>) -> (r: Vec<char>)
    ensures
        r@ == spec_strip_tags(s@, name@),
{
    let mut out: Vec<char> = Vec::new();
    let mut i: usize = 0;
    while i < s.len()
        invariant
            i <= s@.len(),
            out@ + strip_from(s@, i as int, name@) == strip_from(s@, 0, name@),
        decreases s@.len() - i,
    {
        proof {
            lemma_ws_run_end_bounds(s@, i as int);
        }
        let j = scan_ws_end(s, i);
        match tag_core_end_at(s, j, name) {
            Some(e) => {
                proof {
                    assert(out@ + strip_from(s@, e as int, name@) =~= strip_from(s@, 0, name@));
                }
                i = e;
            },
            None => {
                out.push(s[i]);
                proof {
                    assert(out@ + strip_from(s@, i + 1 as int, name@) =~= strip_from(
                        s@,
                        0,
                        name@,
                    ));
                }
                i = i + 1;
            },
        }
    }
    proof {
        assert(out@ =~= strip_from(s@, 0, name@));
    }
    out
}

/// For a done or cancelled body, remove every matching state tag and trim the
/// ends; other tags are untouched.  Bodies of other kinds pass through
/// unchanged.
pub fn strip_state_tag(body: &Vec<char>, kind: LineKind) -> (r: Vec<char>)
    ensures
        r@ == spec_strip_state_tag(body@, kind),
{
    match kind {
        LineKind::Done => {
            let name = done_name_chars();
            let stripped = strip_tags(body, &name);
            trim(&stripped)
        },
        LineKind::Cancelled => {
            let name = cancelled_name_chars();
            let stripped = strip_tags(body, &name);
            trim(&stripped)
        },
        _ => {
            let mut out: Vec<char> = Vec::new();
            crate::text::push_all(&mut out, body);
            out
        },
    }
}

/// The set of tag names that a left-to-right, non-overlapping scan of `s`
/// finds from position `i` on: each `@` followed by at least one word
/// character yields the maximal word run after the `@`.
pub open spec fn tags_from(s: Seq<char>, i: int) -> Set<Seq<char>>
    decreases s.len() - i,
{
    if i < 0 || i >= s.len() {
        Set::empty()
    } else if s[i] == '@' && i + 1 < s.len() && is_word_char(s[i + 1]) {
        let e = word_run_end(s, i + 1);
        if i + 1 < e <= s.len() {
            tags_from(s, e).insert(s.subrange(i + 1, e))
        } else {
            tags_from(s, i + 1)
        }
    } else {
        tags_from(s, i + 1)
    }
}

/// Every distinct tag name occurring in `s`.
pub open spec fn spec_tags(s: Seq<char>) -> Set<Seq<char>> {
    tags_from(s, 0)
}

/// The set of names held by a vector of tag-name vectors.
pub open spec fn names_of(v: Seq<Vec<char>>) -> Set<Seq<char>> {
    v.map_values(|x: Vec<char>| x@).to_set()
}

/// Whether `list` already holds the characters of `x`.
pub fn holds_name(list: &Vec<Vec<char>>, x: &Vec<char>) -> (r: bool)
    ensures
        r == names_of(list@).contains(x@),
{
    let mut k: usize = 0;
    while k < list.len()
        invariant
            k <= list@.len(),
            forall|t: int| 0 <= t < k ==> list@[t]@ != x@,
        decreases list@.len() - k,
    {
        if chars_eq(&list[k], x) {
            proof {
                assert(list@.map_values(|y: Vec<char>| y@)[k as int] == x@);
            }
            return true;
        }
        k = k + 1;
    }
    proof {
        let m = list@.map_values(|y: Vec<char>| y@);
        assert forall|n: Seq<char>| names_of(list@).contains(n) implies n != x@ by {
            let t = choose|t: int| 0 <= t < m.len() && #[trigger] m[t] == n;
            assert(list@[t]@ == n);
        }
    }
    false
}

/// Collect every distinct `@name` tag occurring in `text`, scanning left to
/// right; the result holds each name once.
#[verifier::loop_isolation(false)]
pub fn extract_all_tags(text: &Vec<char>) -> (r: Vec<Vec<char>>)
    ensures
        names_of(r@) == spec_tags(text@),
        forall|a: int, b: int| 0 <= a < b < r@.len() ==> r@[a]@ != r@[b]@,
{
    let mut out: Vec<Vec<char>> = Vec::new();
    let mut i: usize = 0;
    while i < text.len()
        invariant
            i <= text@.len(),
            names_of(out@).union(tags_from(text@, i as int)) == spec_tags(text@),
            forall|a: int, b: int| 0 <= a < b < out@.len() ==> out@[a]@ != out@[b]@,
        decreases text@.len() - i,
    {
        if text[i] == '@' && i + 1 < text.len() && char_is_word(text[i + 1]) {
            proof {
                lemma_word_run_end_bounds(text@, i + 1);
            }
            let e = scan_word_end(text, i + 1);
            let name = copy_range(text, i + 1, e);
            if !holds_name(&out, &name) {
                let ghost old_out = out@;
                out.push(name);
                proof {
                    let m_old = old_out.map_values(|y: Vec<char>| y@);
                    let m_new = out@.map_values(|y: Vec<char>| y@);
                    assert(m_new =~= m_old.push(name@));
                    assert forall|n: Seq<char>| #[trigger] m_new.contains(n) implies m_old.contains(
                        n,
                    ) || n == name@ by {
                        let t = choose|t: int| 0 <= t < m_new.len() && #[trigger] m_new[t] == n;
                        if t < m_old.len() {
                            assert(m_old[t] == n);
                        }
                    }
                    assert forall|n: Seq<char>| #[trigger] m_old.contains(n) implies m_new.contains(
                        n,
                    ) by {
                        let t = choose|t: int| 0 <= t < m_old.len() && #[trigger] m_old[t] == n;
                        assert(m_new[t] == n);
                    }
                    assert(m_new[m_new.len() - 1] == name@);
                    assert(m_new.contains(name@));
                    assert(names_of(out@) =~= names_of(old_out).insert(name@));
                    assert(names_of(out@).union(tags_from(text@, e as int)) =~= spec_tags(text@));
                    assert forall|a: int, b: int|
                        0 <= a < b < out@.len() implies out@[a]@ != out@[b]@ by {
                        if b == out@.len() - 1 {
                            assert(old_out.map_values(|y: Vec<char>| y@)[a] == out@[a]@);
                        }
                    }
                }
            } else {
                proof {
                    assert(names_of(out@).union(tags_from(text@, e as int)) =~= spec_tags(text@));
                }
            }
            i = e;
        } else {
            proof {
                assert(names_of(out@).union(tags_from(text@, i + 1 as int)) =~= spec_tags(text@));
            }
            i = i + 1;
        }
    }
    proof {
        assert(names_of(out@) =~= spec_tags(text@));
    }
    out
}

} // verus!
