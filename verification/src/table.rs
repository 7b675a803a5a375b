//! The content-keyed interning table.
//!
//! Each entry pairs a string key with a non-owning reference to an atom's
//! backing allocation. The table never keeps content alive: once every atom
//! over an allocation is dropped, the entry goes stale and is replaced the
//! next time the same content is interned (resurrection). The table is keyed
//! by the full content, never by a hash alone, so a lookup can never hand
//! back an atom whose content differs from the key.

use vstd::prelude::*;

use crate::atom::Atom;
use crate::atom::WeakAtom;
use crate::atom::weak_view;

verus! {

struct Entry {
    key: String,
    weak: WeakAtom,
}

/// A single-owner interning table: a map from string content to a non-owning
/// reference to an allocation created for exactly that content.
///
/// Its model is [`AtomTable::model`], the map from each key present to the
/// reference stored for it. Well-formedness ([`AtomTable::wf`]) says each key
/// appears once and each entry's reference was taken over an allocation
/// holding exactly the key's content — so a lookup hit returns the looked-up
/// content, never a colliding neighbour's.
pub struct AtomTable {
    entries: Vec<Entry>,
    empty: Atom,
}

impl AtomTable {
    /// The table's content: for each key present, live or stale, the
    /// non-owning reference stored for it.
    pub closed spec fn model(&self) -> Map<Seq<char>, WeakAtom> {
        Map::new(
            |k: Seq<char>|
                exists|i: int| 0 <= i < self.entries@.len() && self.entries@[i].key@ == k,
            |k: Seq<char>|
                self.entries@[choose|i: int|
                    0 <= i < self.entries@.len() && self.entries@[i].key@ == k].weak,
        )
    }

    /// The keys present in the table, live or stale.
    pub open spec fn keys(&self) -> Set<Seq<char>> {
        self.model().dom()
    }

    /// Every key appears in one entry only, and every entry's non-owning
    /// reference was taken over its own key's content.
    pub closed spec fn wf(&self) -> bool {
        &&& forall|i: int, j: int|
            0 <= i < j < self.entries@.len() ==> self.entries@[i].key@ != self.entries@[j].key@
        &&& forall|i: int|
            0 <= i < self.entries@.len() ==> weak_view(#[trigger] self.entries@[i].weak)
                == self.entries@[i].key@
        &&& self.empty@ == Seq::<char>::empty()
    }

    /// In a well-formed table the entry at an index is the one the model
    /// stores for that entry's key.
    proof fn lemma_model_at(&self, j: int)
        requires
            self.wf(),
            0 <= j < self.entries@.len(),
        ensures
            self.model().contains_key(self.entries@[j].key@),
            self.model()[self.entries@[j].key@] == self.entries@[j].weak,
    {
        let k = self.entries@[j].key@;
        assert(self.model().dom().contains(k));
        let i = choose|i: int| 0 <= i < self.entries@.len() && self.entries@[i].key@ == k;
        assert(i == j);
    }

    /// Builds a table holding one entry: the empty string, backed by an
    /// empty atom the table itself keeps alive, so interning `""` hits the
    /// table instead of allocating.
    pub fn new() -> (t: AtomTable)
        ensures
            t.wf(),
            t.keys() =~= Set::empty().insert(Seq::<char>::empty()),
            weak_view(t.model()[Seq::<char>::empty()]) == Seq::<char>::empty(),
    {
        let empty = Atom::default();
        let first = Entry { key: String::new(), weak: empty.as_weak() };
        let mut entries: Vec<Entry> = Vec::new();
        entries.push(first);
        let t = AtomTable { entries, empty };
        proof {
            assert(t.entries@[0].key@ == Seq::<char>::empty());
            assert forall|k: Seq<char>| t.keys().contains(k) implies k
                == Seq::<char>::empty() by {
                let i = choose|i: int| 0 <= i < t.entries@.len() && t.entries@[i].key@ == k;
                assert(i == 0);
            }
            t.lemma_model_at(0);
        }
        t
    }

    /// Finds the index of the entry for `text`, if one is present.
    fn find(&self, text: &str) -> (r: Option<usize>)
        ensures
            match r {
                Some(i) => 0 <= i < self.entries@.len() && self.entries@[i as int].key@ == text@,
                None => forall|i: int|
                    0 <= i < self.entries@.len() ==> self.entries@[i].key@ != text@,
            },
    {
        let needle: String = text.to_owned();
        let n = self.entries.len();
        let mut i: usize = 0;
        while i < n
            invariant
                needle@ == text@,
                n == self.entries@.len(),
                0 <= i <= n,
                forall|j: int| 0 <= j < i ==> self.entries@[j].key@ != text@,
            decreases n - i,
        {
            if self.entries[i].key.eq(&needle) {
                return Some(i);
            }
            i = i + 1;
        }
        None
    }

    /// Interns `text`: returns an atom whose content equals `text`, reusing
    /// the already-live allocation when the table has one, and recording a
    /// fresh allocation otherwise. Afterwards the table has an entry for
    /// `text` whose reference was taken over that very content; every other
    /// key's entry is untouched.
    pub fn register(&mut self, text: &str) -> (a: Atom)
        requires
            old(self).wf(),
        ensures
            final(self).wf(),
            a@ == text@,
            final(self).keys() =~= old(self).keys().insert(text@),
            weak_view(final(self).model()[text@]) == text@,
            forall|k: Seq<char>|
                k != text@ && old(self).model().contains_key(k)
                    ==> final(self).model()[k] == old(self).model()[k],
    {
        match self.find(text) {
            Some(i) => {
                let revived = self.entries[i].weak.upgrade();
                match revived {
                    Some(a) => {
                        proof {
                            self.lemma_model_at(i as int);
                            assert(final(self).keys() =~= old(self).keys().insert(text@));
                        }
                        a
                    },
                    None => {
                        // Stale entry: the allocation died. Resurrect it.
                        let a = Atom::new(text);
                        let fresh = Entry { key: text.to_owned(), weak: a.as_weak() };
                        self.entries[i] = fresh;
                        proof {
                            let pre = old(self).entries@;
                            let post = self.entries@;
                            assert(post == pre.update(i as int, fresh));
                            assert forall|k: Seq<char>| final(self).keys().contains(k)
                                implies old(self).keys().insert(text@).contains(k) by {
                                let j = choose|j: int|
                                    0 <= j < post.len() && post[j].key@ == k;
                                if j != i {
                                    assert(pre[j].key@ == k);
                                }
                            }
                            assert forall|k: Seq<char>|
                                old(self).keys().insert(text@).contains(k)
                                implies final(self).keys().contains(k) by {
                                if k == text@ {
                                    assert(post[i as int].key@ == k);
                                } else {
                                    let j = choose|j: int|
                                        0 <= j < pre.len() && pre[j].key@ == k;
                                    assert(j != i);
                                    assert(post[j].key@ == k);
                                }
                            }
                            self.lemma_model_at(i as int);
                            assert forall|k: Seq<char>|
                                k != text@ && old(self).model().contains_key(k)
                                implies final(self).model()[k] == old(self).model()[k] by {
                                let j = choose|j: int|
                                    0 <= j < pre.len() && pre[j].key@ == k;
                                assert(j != i);
                                assert(post[j].key@ == k);
                                old(self).lemma_model_at(j);
                                self.lemma_model_at(j);
                            }
                        }
                        a
                    },
                }
            },
            None => {
                // No entry for this content yet: allocate and record it.
                let a = Atom::new(text);
                let fresh = Entry { key: text.to_owned(), weak: a.as_weak() };
                self.entries.push(fresh);
                proof {
                    let pre = old(self).entries@;
                    let post = self.entries@;
                    assert(post == pre.push(fresh));
                    assert forall|k: Seq<char>| final(self).keys().contains(k)
                        implies old(self).keys().insert(text@).contains(k) by {
                        let j = choose|j: int| 0 <= j < post.len() && post[j].key@ == k;
                        if j < pre.len() {
                            assert(pre[j].key@ == k);
                        }
                    }
                    assert forall|k: Seq<char>| old(self).keys().insert(text@).contains(k)
                        implies final(self).keys().contains(k) by {
                        if k == text@ {
                            assert(post[pre.len() as int].key@ == k);
                        } else {
                            let j = choose|j: int| 0 <= j < pre.len() && pre[j].key@ == k;
                            assert(post[j].key@ == k);
                        }
                    }
                    self.lemma_model_at(pre.len() as int);
                    assert forall|k: Seq<char>|
                        k != text@ && old(self).model().contains_key(k)
                        implies final(self).model()[k] == old(self).model()[k] by {
                        let j = choose|j: int| 0 <= j < pre.len() && pre[j].key@ == k;
                        assert(post[j].key@ == k);
                        old(self).lemma_model_at(j);
                        self.lemma_model_at(j);
                    }
                }
                a
            },
        }
    }

    /// Removes the entry for `text`, live or stale, if one is present; every
    /// other key's entry is untouched. Atoms already handed out are
    /// unaffected: the table's reference never owned their content.
    pub fn unregister(&mut self, text: &str)
        requires
            old(self).wf(),
        ensures
            final(self).wf(),
            final(self).model() =~= old(self).model().remove(text@),
    {
        match self.find(text) {
            Some(i) => {
                let _ = self.entries.remove(i);
                proof {
                    let pre = old(self).entries@;
                    let post = self.entries@;
                    assert(post == pre.remove(i as int));
                    assert forall|k: Seq<char>| final(self).keys().contains(k)
                        implies old(self).keys().remove(text@).contains(k) by {
                        let j = choose|j: int| 0 <= j < post.len() && post[j].key@ == k;
                        if j < i {
                            assert(pre[j].key@ == k);
                            assert(k != text@);
                        } else {
                            assert(pre[j + 1].key@ == k);
                            assert(k != text@);
                        }
                    }
                    assert forall|k: Seq<char>| old(self).keys().remove(text@).contains(k)
                        implies final(self).keys().contains(k) by {
                        let j = choose|j: int| 0 <= j < pre.len() && pre[j].key@ == k;
                        assert(j != i);
                        if j < i {
                            assert(post[j].key@ == k);
                        } else {
                            assert(post[j - 1].key@ == k);
                        }
                    }
                    assert(final(self).keys() =~= old(self).keys().remove(text@));
                    assert forall|k: Seq<char>| final(self).keys().contains(k)
                        implies final(self).model()[k] == old(self).model()[k] by {
                        let j = choose|j: int| 0 <= j < post.len() && post[j].key@ == k;
                        self.lemma_model_at(j);
                        if j < i {
                            old(self).lemma_model_at(j);
                        } else {
                            assert(pre[j + 1].key@ == k);
                            old(self).lemma_model_at(j + 1);
                        }
                    }
                    assert(final(self).model() =~= old(self).model().remove(text@));
                }
            },
            None => {
                proof {
                    assert(!old(self).model().contains_key(text@));
                    assert(final(self).model() =~= old(self).model().remove(text@));
                }
            },
        }
    }
}

} // verus!
