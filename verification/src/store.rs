//! The document store.
//!
//! A store maps document identifiers to their current full text.  An entry is
//! created on open, replaced wholesale on change, and removed on close; a
//! lookup of an unknown identifier yields nothing.  The store is a value
//! owned by its server; callers that serve concurrent requests guard it with
//! a reader/writer lock of their own.

use vstd::prelude::*;

use crate::text::{clone_chars, chars_eq};

verus! {

/// One held document: its identifier and its current text.
pub struct StoredDocument {
    pub id: Vec<char>,
    pub text: Vec<char>,
}

/// The mapping that a sequence of entries represents, later entries winning.
pub open spec fn store_map(s: Seq<StoredDocument>) -> Map<Seq<char>, Seq<char>>
    decreases s.len(),
{
    if s.len() == 0 {
        Map::empty()
    } else {
        store_map(s.drop_last()).insert(s.last().id@, s.last().text@)
    }
}

/// Whether the entry identifiers are pairwise distinct.
pub open spec fn distinct_ids(s: Seq<StoredDocument>) -> bool {
    forall|a: int, b: int| 0 <= a < b < s.len() ==> s[a].id@ != s[b].id@
}

proof fn lemma_store_map_contains(s: Seq<StoredDocument>, k: Seq<char>)
    ensures
        store_map(s).contains_key(k) <==> exists|i: int| 0 <= i < s.len() && s[i].id@ == k,
    decreases s.len(),
{
    if s.len() > 0 {
        lemma_store_map_contains(s.drop_last(), k);
        if store_map(s).contains_key(k) && s.last().id@ != k {
            let i = choose|i: int| 0 <= i < s.drop_last().len() && s.drop_last()[i].id@ == k;
            assert(s[i].id@ == k);
        }
        if exists|i: int| 0 <= i < s.len() && s[i].id@ == k {
            let i = choose|i: int| 0 <= i < s.len() && s[i].id@ == k;
            if i < s.len() - 1 {
                assert(s.drop_last()[i].id@ == k);
            }
        }
    }
}

proof fn lemma_store_map_get(s: Seq<StoredDocument>, i: int)
    requires
        distinct_ids(s),
        0 <= i < s.len(),
    ensures
        store_map(s).contains_key(s[i].id@),
        store_map(s)[s[i].id@] == s[i].text@,
    decreases s.len(),
{
    if i == s.len() - 1 {
    } else {
        assert(s.drop_last()[i] == s[i]);
        lemma_store_map_get(s.drop_last(), i);
        assert(s[i].id@ != s.last().id@);
    }
}

proof fn lemma_store_map_remove(s: Seq<StoredDocument>, i: int)
    requires
        distinct_ids(s),
        0 <= i < s.len(),
    ensures
        store_map(s.remove(i)) == store_map(s).remove(s[i].id@),
    decreases s.len(),
{
    let k = s[i].id@;
    if i == s.len() - 1 {
        assert(s.remove(i) =~= s.drop_last());
        lemma_store_map_contains(s.drop_last(), k);
        assert forall|j: int| 0 <= j < s.drop_last().len() implies s.drop_last()[j].id@ != k by {
            assert(s[j].id@ != s[s.len() - 1].id@);
        }
        assert(!store_map(s.drop_last()).contains_key(k));
        assert(store_map(s.drop_last()) =~= store_map(s.drop_last()).insert(
            k,
            s.last().text@,
        ).remove(k));
    } else {
        assert(s.remove(i).drop_last() =~= s.drop_last().remove(i));
        assert(s.remove(i).last() == s.last());
        assert forall|a: int, b: int|
            0 <= a < b < s.drop_last().len() implies s.drop_last()[a].id@ != s.drop_last()[b].id@
        by {
            assert(s[a].id@ != s[b].id@);
        }
        lemma_store_map_remove(s.drop_last(), i);
        assert(s.drop_last()[i] == s[i]);
        assert(s.last().id@ != k);
        assert(store_map(s.remove(i)) =~= store_map(s).remove(k));
    }
}

/// The in-memory store of open documents.
pub struct DocumentStore {
    entries: Vec<StoredDocument>,
}

impl View for DocumentStore {
    type V = Map<Seq<char>, Seq<char>>;

    closed spec fn view(&self) -> Map<Seq<char>, Seq<char>> {
        store_map(self.entries@)
    }
}

impl DocumentStore {
    /// The store's structural invariant: one entry per identifier.
    pub closed spec fn wf(&self) -> bool {
        distinct_ids(self.entries@)
    }

    /// An empty store, as a server starts with.
    pub fn new() -> (r: DocumentStore)
        ensures
            r.wf(),
            r@ == Map::<Seq<char>, Seq<char>>::empty(),
    {
        DocumentStore { entries: Vec::new() }
    }

    /// Index of the entry holding `id`, if any.
    fn find(&self, id: &Vec<char>) -> (r: Option<usize>)
        ensures
            match r {
                Some(i) => i < self.entries@.len() && self.entries@[i as int].id@ == id@,
                None => forall|i: int| 0 <= i < self.entries@.len() ==> self.entries@[i].id@ != id@,
            },
    {
        let mut i: usize = 0;
        while i < self.entries.len()
            invariant
                i <= self.entries@.len(),
                forall|t: int| 0 <= t < i ==> self.entries@[t].id@ != id@,
            decreases self.entries@.len() - i,
        {
            if chars_eq(&self.entries[i].id, id) {
                return Some(i);
            }
            i = i + 1;
        }
        None
    }

    /// Record a newly opened document, or replace the text of one already
    /// open under the same identifier.
    pub fn open_document(&mut self, id: &Vec<char>, text: &Vec<char>)
        requires
            old(self).wf(),
        ensures
            final(self).wf(),
            final(self)@ == old(self)@.insert(id@, text@),
    {
        let ghost s0 = self.entries@;
        match self.find(id) {
            Some(i) => {
                proof {
                    lemma_store_map_remove(s0, i as int);
                }
                self.entries.remove(i);
                proof {
                    assert(distinct_ids(self.entries@)) by {
                        assert forall|a: int, b: int|
                            0 <= a < b < self.entries@.len() implies self.entries@[a].id@
                            != self.entries@[b].id@ by {
                            if b < i {
                                assert(s0[a].id@ != s0[b].id@);
                            } else if a < i {
                                assert(s0[a].id@ != s0[b + 1].id@);
                            } else {
                                assert(s0[a + 1].id@ != s0[b + 1].id@);
                            }
                        }
                    }
                }
                let id_copy = clone_chars(id);
                let text_copy = clone_chars(text);
                let ghost s1 = self.entries@;
                proof {
                    assert forall|j: int| 0 <= j < s1.len() implies s1[j].id@ != id@ by {
                        if j < i {
                            assert(s0[j].id@ != s0[i as int].id@);
                        } else {
                            assert(s0[i as int].id@ != s0[j + 1].id@);
                        }
                    }
                }
                self.entries.push(StoredDocument { id: id_copy, text: text_copy });
                proof {
                    assert(self.entries@.drop_last() =~= s1);
                    assert forall|a: int, b: int|
                        0 <= a < b < self.entries@.len() implies self.entries@[a].id@
                        != self.entries@[b].id@ by {
                        if b < self.entries@.len() - 1 {
                            assert(s1[a].id@ != s1[b].id@);
                        } else {
                            assert(s1[a].id@ != id@);
                        }
                    }
                    assert(store_map(self.entries@) =~= store_map(s0).insert(id@, text@));
                }
            },
            None => {
                let id_copy = clone_chars(id);
                let text_copy = clone_chars(text);
                let ghost s1 = self.entries@;
                self.entries.push(StoredDocument { id: id_copy, text: text_copy });
                proof {
                    assert(self.entries@.drop_last() =~= s1);
                    assert forall|a: int, b: int|
                        0 <= a < b < self.entries@.len() implies self.entries@[a].id@
                        != self.entries@[b].id@ by {
                        if b < self.entries@.len() - 1 {
                            assert(s1[a].id@ != s1[b].id@);
                        } else {
                            assert(s1[a].id@ != id@);
                        }
                    }
                }
            },
        }
    }

    /// Replace the text of an open document; a change for an identifier that
    /// is not open is ignored.
    pub fn change_document(&mut self, id: &Vec<char>, text: &Vec<char>)
        requires
            old(self).wf(),
        ensures
            final(self).wf(),
            old(self)@.contains_key(id@) ==> final(self)@ == old(self)@.insert(id@, text@),
            !old(self)@.contains_key(id@) ==> final(self)@ == old(self)@,
    {
        proof {
            lemma_store_map_contains(self.entries@, id@);
        }
        match self.find(id) {
            Some(_) => {
                self.open_document(id, text);
            },
            None => {},
        }
    }

    /// Drop a closed document; closing an identifier that is not open leaves
    /// the store as it is.
    pub fn close_document(&mut self, id: &Vec<char>)
        requires
            old(self).wf(),
        ensures
            final(self).wf(),
            final(self)@ == old(self)@.remove(id@),
    {
        let ghost s0 = self.entries@;
        proof {
            lemma_store_map_contains(s0, id@);
        }
        match self.find(id) {
            Some(i) => {
                proof {
                    lemma_store_map_remove(s0, i as int);
                }
                self.entries.remove(i);
                proof {
                    assert forall|a: int, b: int|
                        0 <= a < b < self.entries@.len() implies self.entries@[a].id@
                        != self.entries@[b].id@ by {
                        if b < i {
                            assert(s0[a].id@ != s0[b].id@);
                        } else if a < i {
                            assert(s0[a].id@ != s0[b + 1].id@);
                        } else {
                            assert(s0[a + 1].id@ != s0[b + 1].id@);
                        }
                    }
                }
            },
            None => {
                proof {
                    assert(!old(self)@.contains_key(id@));
                    assert(final(self)@ =~= old(self)@.remove(id@));
                }
            },
        }
    }

    /// The current text of an open document, or nothing.
    pub fn get_text(&self, id: &Vec<char>) -> (r: Option<Vec<char>>)
        requires
            self.wf(),
        ensures
            match r {
                Some(t) => self@.contains_key(id@) && t@ == self@[id@],
                None => !self@.contains_key(id@),
            },
    {
        proof {
            lemma_store_map_contains(self.entries@, id@);
        }
        match self.find(id) {
            Some(i) => {
                proof {
                    lemma_store_map_get(self.entries@, i as int);
                }
                Some(clone_chars(&self.entries[i].text))
            },
            None => None,
        }
    }
}

} // verus!
