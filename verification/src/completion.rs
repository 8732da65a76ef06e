//! The completion provider.
//!
//! Candidates are the union of a fixed built-in vocabulary and every tag
//! already used in the document, each offered once.  A candidate's insertable
//! text is the bare name; its label carries the `@` trigger character in
//! front.

use vstd::prelude::*;

use crate::text::{copy_range, str_to_chars};
use crate::tags::{spec_tags, names_of, holds_name, extract_all_tags};

verus! {

/// The built-in tag vocabulary, in the order the provider seeds it.
pub open spec fn builtin_names() -> Seq<Seq<char>> {
    seq![
        "today"@,
        "high"@,
        "medium"@,
        "low"@,
        "critical"@,
        "done"@,
        "cancelled"@,
        "started"@,
        "est"@,
        "lasted"@,
    ]
}

/// The built-in tag vocabulary as a set.
pub open spec fn builtin_tags() -> Set<Seq<char>> {
    builtin_names().to_set()
}

/// A completion candidate: the text inserted after the trigger character, and
/// the label shown, which carries the leading `@`.
pub struct CompletionCandidate {
    pub insert_text: Vec<char>,
    pub label: Vec<char>,
}

/// The set of insertable texts of a candidate list.
pub open spec fn inserts_of(v: Seq<CompletionCandidate>) -> Set<Seq<char>> {
    v.map_values(|c: CompletionCandidate| c.insert_text@).to_set()
}

proof fn lemma_names_push(v: Seq<Vec<char>>, x: Vec<char>)
    ensures
        names_of(v.push(x)) == names_of(v).insert(x@),
{
    let m_old = v.map_values(|y: Vec<char>| y@);
    let m_new = v.push(x).map_values(|y: Vec<char>| y@);
    assert(m_new =~= m_old.push(x@));
    assert forall|n: Seq<char>| #[trigger] m_new.contains(n) implies m_old.contains(n) || n == x@ by {
        let t = choose|t: int| 0 <= t < m_new.len() && #[trigger] m_new[t] == n;
        if t < m_old.len() {
            assert(m_old[t] == n);
        }
    }
    assert forall|n: Seq<char>| #[trigger] m_old.contains(n) implies m_new.contains(n) by {
        let t = choose|t: int| 0 <= t < m_old.len() && #[trigger] m_old[t] == n;
        assert(m_new[t] == n);
    }
    assert(m_new[m_new.len() - 1] == x@);
    assert(m_new.contains(x@));
    assert(names_of(v.push(x)) =~= names_of(v).insert(x@));
}

/// The built-in vocabulary as character vectors, each name once.
fn builtin_name_list() -> (r: Vec<Vec<char>>)
    ensures
        r@.map_values(|y: Vec<char>| y@) == builtin_names(),
        names_of(r@) == builtin_tags(),
        forall|a: int, b: int| 0 <= a < b < r@.len() ==> r@[a]@ != r@[b]@,
{
    let mut out: Vec<Vec<char>> = Vec::new();
    out.push(str_to_chars("today"));
    out.push(str_to_chars("high"));
    out.push(str_to_chars("medium"));
    out.push(str_to_chars("low"));
    out.push(str_to_chars("critical"));
    out.push(str_to_chars("done"));
    out.push(str_to_chars("cancelled"));
    out.push(str_to_chars("started"));
    out.push(str_to_chars("est"));
    out.push(str_to_chars("lasted"));
    proof {
        reveal_strlit("today");
        reveal_strlit("high");
        reveal_strlit("medium");
        reveal_strlit("low");
        reveal_strlit("critical");
        reveal_strlit("done");
        reveal_strlit("cancelled");
        reveal_strlit("started");
        reveal_strlit("est");
        reveal_strlit("lasted");
        assert(out@.map_values(|y: Vec<char>| y@) =~= builtin_names());
        assert forall|a: int, b: int| 0 <= a < b < out@.len() implies out@[a]@ != out@[b]@ by {
            assert(out@[a]@ == builtin_names()[a]);
            assert(out@[b]@ == builtin_names()[b]);
            assert(("high"@)[0] != ("done"@)[0]);
            assert(("low"@)[0] != ("est"@)[0]);
            assert(("medium"@)[0] != ("lasted"@)[0]);
        }
    }
    out
}

/// Merge the names of `extra` into `base`, keeping each name once.
#[verifier::loop_isolation(false)]
fn merge_names(base: Vec<Vec<char>>, extra: &Vec<Vec<char>>) -> (r: Vec<Vec<char>>)
    requires
        forall|a: int, b: int| 0 <= a < b < base@.len() ==> base@[a]@ != base@[b]@,
    ensures
        names_of(r@) == names_of(base@).union(names_of(extra@)),
        forall|a: int, b: int| 0 <= a < b < r@.len() ==> r@[a]@ != r@[b]@,
{
    let ghost base0 = base@;
    let mut out = base;
    let mut i: usize = 0;
    while i < extra.len()
        invariant
            i <= extra@.len(),
            names_of(out@) == names_of(base0).union(names_of(extra@.take(i as int))),
            forall|a: int, b: int| 0 <= a < b < out@.len() ==> out@[a]@ != out@[b]@,
        decreases extra@.len() - i,
    {
        let ghost old_out = out@;
        proof {
            assert(extra@.take(i + 1) =~= extra@.take(i as int).push(extra@[i as int]));
            lemma_names_push(extra@.take(i as int), extra@[i as int]);
        }
        let name = copy_range(&extra[i], 0, extra[i].len());
        proof {
            assert(name@ == extra@[i as int]@);
        }
        if !holds_name(&out, &name) {
            out.push(name);
            proof {
                lemma_names_push(old_out, name);
                assert(names_of(out@) =~= names_of(base0).union(names_of(extra@.take(i + 1))));
                assert forall|a: int, b: int|
                    0 <= a < b < out@.len() implies out@[a]@ != out@[b]@ by {
                    if b == out@.len() - 1 {
                        assert(old_out.map_values(|y: Vec<char>| y@)[a] == out@[a]@);
                        assert(names_of(old_out).contains(out@[a]@));
                    }
                }
            }
        } else {
            proof {
                assert(names_of(out@) =~= names_of(base0).union(names_of(extra@.take(i + 1))));
            }
        }
        i = i + 1;
    }
    proof {
        assert(extra@.take(extra@.len() as int) =~= extra@);
    }
    out
}

/// Produce the completion candidates for a document: the built-in vocabulary
/// joined with every tag found in the text, each name once, labelled with the
/// `@` trigger character.
#[verifier::loop_isolation(false)]
pub fn completion_candidates(text: &Vec<char>) -> (r: Vec<CompletionCandidate>)
    ensures
        inserts_of(r@) == builtin_tags().union(spec_tags(text@)),
        forall|k: int|
            0 <= k < r@.len() ==> r@[k].label@ == seq!['@'] + r@[k].insert_text@,
        forall|a: int, b: int| 0 <= a < b < r@.len() ==> r@[a].insert_text@ != r@[b].insert_text@,
{
    let builtins = builtin_name_list();
    let found = extract_all_tags(text);
    let names = merge_names(builtins, &found);
    let mut out: Vec<CompletionCandidate> = Vec::new();
    let mut i: usize = 0;
    while i < names.len()
        invariant
            i <= names@.len(),
            out@.len() == i,
            forall|k: int| 0 <= k < i ==> out@[k].insert_text@ == names@[k]@,
            forall|k: int|
                0 <= k < i ==> out@[k].label@ == seq!['@'] + out@[k].insert_text@,
        decreases names@.len() - i,
    {
        let insert_text = copy_range(&names[i], 0, names[i].len());
        let mut label: Vec<char> = Vec::new();
        label.push('@');
        crate::text::push_all(&mut label, &insert_text);
        proof {
            assert(insert_text@ == names@[i as int]@);
            assert(label@ =~= seq!['@'] + insert_text@);
        }
        out.push(CompletionCandidate { insert_text, label });
        i = i + 1;
    }
    proof {
        assert(out@.map_values(|c: CompletionCandidate| c.insert_text@) =~= names@.map_values(
            |y: Vec<char>| y@,
        ));
        assert(inserts_of(out@) =~= names_of(names@));
        assert forall|a: int, b: int|
            0 <= a < b < out@.len() implies out@[a].insert_text@ != out@[b].insert_text@ by {
            assert(out@[a].insert_text@ == names@[a]@);
            assert(out@[b].insert_text@ == names@[b]@);
        }
    }
    out
}

} // verus!
