//! Character classes and basic scanning over sequences of characters.
//!
//! Lines and documents are handled as `Vec<char>`; the spec side works on
//! `Seq<char>`.  Whitespace here means the space and tab characters that the
//! task format uses for indentation.

use vstd::prelude::*;
use vstd::std_specs::iter::IteratorSpec;

verus! {

/// Whitespace for the task format: space or tab.
pub open spec fn is_ws(c: char) -> bool {
    c == ' ' || c == '\t'
}

/// Whether a character is Unicode-alphanumeric, as `char::is_alphanumeric`
/// decides it.
pub uninterp spec fn unicode_alphanumeric(c: char) -> bool;

/// Relies on char::is_alphanumeric: whether the character's Unicode general
/// category is a letter or a number, a function of the character alone.
pub assume_specification[ char::is_alphanumeric ](c: char) -> (r: bool)
    ensures
        r == unicode_alphanumeric(c),
;

/// Characters that may appear in a tag name: Unicode letters and digits, and
/// the underscore.  The tag trigger `@` is a delimiter, never part of a name
/// (Unicode classes it as punctuation, so the exclusion restates what
/// alphanumeric already rules out).
pub open spec fn is_word_char(c: char) -> bool {
    (unicode_alphanumeric(c) && c != '@') || c == '_'
}

pub fn char_is_ws(c: char) -> (r: bool)
    ensures
        r == is_ws(c),
{
    c == ' ' || c == '\t'
}

pub fn char_is_word(c: char) -> (r: bool)
    ensures
        r == is_word_char(c),
{
    (c.is_alphanumeric() && c != '@') || c == '_'
}

/// First index `j >= i` with `j == s.len()` or a non-whitespace character at `j`.
pub open spec fn ws_run_end(s: Seq<char>, i: int) -> int
    decreases s.len() - i,
{
    if i < 0 {
        i
    } else if i >= s.len() {
        s.len() as int
    } else if is_ws(s[i]) {
        ws_run_end(s, i + 1)
    } else {
        i
    }
}

/// First index `j >= i` with `j == s.len()` or a non-word character at `j`.
pub open spec fn word_run_end(s: Seq<char>, i: int) -> int
    decreases s.len() - i,
{
    if i < 0 {
        i
    } else if i >= s.len() {
        s.len() as int
    } else if is_word_char(s[i]) {
        word_run_end(s, i + 1)
    } else {
        i
    }
}

pub proof fn lemma_ws_run_end_bounds(s: Seq<char>, i: int)
    requires
        0 <= i <= s.len(),
    ensures
        i <= ws_run_end(s, i) <= s.len(),
        forall|k: int| i <= k < ws_run_end(s, i) ==> is_ws(s[k]),
        ws_run_end(s, i) < s.len() ==> !is_ws(s[ws_run_end(s, i)]),
    decreases s.len() - i,
{
    if i < s.len() && is_ws(s[i]) {
        lemma_ws_run_end_bounds(s, i + 1);
    }
}

pub proof fn lemma_word_run_end_bounds(s: Seq<char>, i: int)
    requires
        0 <= i <= s.len(),
    ensures
        i <= word_run_end(s, i) <= s.len(),
        forall|k: int| i <= k < word_run_end(s, i) ==> is_word_char(s[k]),
        word_run_end(s, i) < s.len() ==> !is_word_char(s[word_run_end(s, i)]),
    decreases s.len() - i,
{
    if i < s.len() && is_word_char(s[i]) {
        lemma_word_run_end_bounds(s, i + 1);
    }
}

/// Scan forward from `i` over whitespace.
pub fn scan_ws_end(s: &Vec<char>, i: usize) -> (r: usize)
    requires
        i <= s@.len(),
    ensures
        r == ws_run_end(s@, i as int),
{
    let mut j = i;
    while j < s.len() && char_is_ws(s[j])
        invariant
            i <= j <= s@.len(),
            ws_run_end(s@, i as int) == ws_run_end(s@, j as int),
        decreases s@.len() - j,
    {
        j = j + 1;
    }
    j
}

/// Scan forward from `i` over word characters.
pub fn scan_word_end(s: &Vec<char>, i: usize) -> (r: usize)
    requires
        i <= s@.len(),
    ensures
        r == word_run_end(s@, i as int),
{
    let mut j = i;
    while j < s.len() && char_is_word(s[j])
        invariant
            i <= j <= s@.len(),
            word_run_end(s@, i as int) == word_run_end(s@, j as int),
        decreases s@.len() - j,
    {
        j = j + 1;
    }
    j
}

/// The whitespace run from `i` ends exactly where whitespace stops.
pub proof fn lemma_ws_run_end_is(s: Seq<char>, i: int, n: int)
    requires
        0 <= i <= n <= s.len(),
        forall|k: int| i <= k < n ==> is_ws(s[k]),
        n < s.len() ==> !is_ws(s[n]),
    ensures
        ws_run_end(s, i) == n,
{
    lemma_ws_run_end_bounds(s, i);
    let j = ws_run_end(s, i);
    if j < n {
        assert(is_ws(s[j]));
    } else if j > n {
        assert(is_ws(s[n]));
    }
}

/// Length of the sequence once trailing whitespace is removed.
pub open spec fn trim_end_idx(s: Seq<char>) -> int
    decreases s.len(),
{
    if s.len() > 0 && is_ws(s.last()) {
        trim_end_idx(s.drop_last())
    } else {
        s.len() as int
    }
}

pub proof fn lemma_trim_end_idx(s: Seq<char>)
    ensures
        0 <= trim_end_idx(s) <= s.len(),
        forall|k: int| trim_end_idx(s) <= k < s.len() ==> is_ws(s[k]),
        trim_end_idx(s) > 0 ==> !is_ws(s[trim_end_idx(s) - 1]),
    decreases s.len(),
{
    if s.len() > 0 && is_ws(s.last()) {
        lemma_trim_end_idx(s.drop_last());
        assert forall|k: int| trim_end_idx(s) <= k < s.len() implies is_ws(s[k]) by {
            if k < s.len() - 1 {
                assert(s.drop_last()[k] == s[k]);
            }
        }
    }
}

/// The sequence with leading and trailing whitespace removed.
pub open spec fn spec_trim(s: Seq<char>) -> Seq<char> {
    let t = s.take(trim_end_idx(s));
    t.skip(ws_run_end(t, 0))
}

/// Remove leading and trailing whitespace.
#[verifier::loop_isolation(false)]
pub fn trim(s: &Vec<char>) -> (r: Vec<char>)
    ensures
        r@ == spec_trim(s@),
{
    proof {
        lemma_trim_end_idx(s@);
        assert(s@.take(s@.len() as int) =~= s@);
    }
    let mut end = s.len();
    while end > 0 && char_is_ws(s[end - 1])
        invariant
            trim_end_idx(s@) <= end <= s@.len(),
            trim_end_idx(s@.take(end as int)) == trim_end_idx(s@),
        decreases end,
    {
        proof {
            assert(s@.take(end as int).drop_last() =~= s@.take(end - 1 as int));
            lemma_trim_end_idx(s@.take(end - 1 as int));
        }
        end = end - 1;
    }
    let ghost t = s@.take(trim_end_idx(s@));
    proof {
        assert(s@.take(end as int) =~= t);
        lemma_ws_run_end_bounds(t, 0);
    }
    let mut start: usize = 0;
    while start < end && char_is_ws(s[start])
        invariant
            0 <= start <= end <= s@.len(),
            end == trim_end_idx(s@),
            ws_run_end(t, 0) == ws_run_end(t, start as int),
            forall|k: int| 0 <= k < start ==> is_ws(s@[k]),
        decreases end - start,
    {
        proof {
            assert(t[start as int] == s@[start as int]);
        }
        start = start + 1;
    }
    proof {
        lemma_ws_run_end_bounds(t, start as int);
        if start < end {
            assert(t[start as int] == s@[start as int]);
            assert(ws_run_end(t, start as int) == start);
        } else {
            assert(ws_run_end(t, start as int) == start);
        }
    }
    let mut out: Vec<char> = Vec::new();
    let mut i = start;
    while i < end
        invariant
            start <= i <= end <= s@.len(),
            out@ =~= s@.subrange(start as int, i as int),
        decreases end - i,
    {
        out.push(s[i]);
        i = i + 1;
    }
    proof {
        assert(out@ =~= t.skip(ws_run_end(t, 0)));
    }
    out
}

/// Append every character of `src` to `dst`.
pub fn push_all(dst: &mut Vec<char>, src: &Vec<char>)
    ensures
        final(dst)@ == old(dst)@ + src@,
{
    let mut i: usize = 0;
    while i < src.len()
        invariant
            i <= src@.len(),
            dst@ =~= old(dst)@ + src@.take(i as int),
        decreases src@.len() - i,
    {
        dst.push(src[i]);
        i = i + 1;
    }
    proof {
        assert(dst@ =~= old(dst)@ + src@);
    }
}

/// Copy the characters of `s` in the index range `a..b`.
pub fn copy_range(s: &Vec<char>, a: usize, b: usize) -> (r: Vec<char>)
    requires
        a <= b <= s@.len(),
    ensures
        r@ == s@.subrange(a as int, b as int),
{
    let mut out: Vec<char> = Vec::new();
    let mut i = a;
    while i < b
        invariant
            a <= i <= b <= s@.len(),
            out@ =~= s@.subrange(a as int, i as int),
        decreases b - i,
    {
        out.push(s[i]);
        i = i + 1;
    }
    proof {
        assert(out@ =~= s@.subrange(a as int, b as int));
    }
    out
}

/// Copy a character vector.
pub fn clone_chars(s: &Vec<char>) -> (r: Vec<char>)
    ensures
        r@ == s@,
{
    let r = copy_range(s, 0, s.len());
    proof {
        assert(r@ =~= s@);
    }
    r
}

/// Collect the characters of a string slice into a vector.
pub fn str_to_chars(s: &str) -> (r: Vec<char>)
    ensures
        r@ == s@,
{
    let mut out: Vec<char> = Vec::new();
    let mut it = s.chars();
    loop
        invariant
            it.obeys_prophetic_iter_laws(),
            it.decrease() is Some,
            out@ + it.remaining() == s@,
        decreases it.decrease().unwrap(),
    {
        match it.next() {
            Some(c) => {
                out.push(c);
                proof {
                    assert(out@ + it.remaining() =~= s@);
                }
            },
            None => {
                proof {
                    assert(out@ =~= s@);
                }
                return out;
            },
        }
    }
}

/// Whether two character vectors hold the same characters.
pub fn chars_eq(a: &Vec<char>, b: &Vec<char>) -> (r: bool)
    ensures
        r == (a@ == b@),
{
    if a.len() != b.len() {
        proof {
            assert(a@ != b@);
        }
        return false;
    }
    let mut i: usize = 0;
    while i < a.len()
        invariant
            i <= a@.len(),
            a@.len() == b@.len(),
            forall|k: int| 0 <= k < i ==> a@[k] == b@[k],
        decreases a@.len() - i,
    {
        if a[i] != b[i] {
            proof {
                assert(a@ != b@);
            }
            return false;
        }
        i = i + 1;
    }
    proof {
        assert(a@ =~= b@);
    }
    true
}

} // verus!
