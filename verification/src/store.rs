//! An in-memory ledger store.
//!
//! A small key-value store backed by a vector of pairs, offered both as a
//! reference implementation of the store visitor and as the harness the
//! engine is exercised against.

use vstd::prelude::*;

use crate::key::Key;
use crate::ops::{matching, DBUpdateVisitor};
use crate::pattern::{regex_matches, Pattern};

verus! {

/// The stored pairs as a map; a later entry for the same key overrides an
/// earlier one.
pub open spec fn store_map(s: Seq<(Key, Vec<u8>)>) -> Map<Seq<char>, Seq<u8>>
    decreases s.len(),
{
    if s.len() == 0 {
        Map::empty()
    } else {
        store_map(s.drop_last()).insert(s.last().0@, s.last().1@)
    }
}

/// The stored keys are pairwise distinct.
spec fn store_keys_distinct(s: Seq<(Key, Vec<u8>)>) -> bool {
    forall|p: int, q: int| 0 <= p < q < s.len() ==> (#[trigger] s[p]).0@ != (#[trigger] s[q]).0@
}

proof fn lemma_store_dom(s: Seq<(Key, Vec<u8>)>, k: Seq<char>)
    ensures
        store_map(s).contains_key(k) <==> exists|i: int|
            0 <= i < s.len() && (#[trigger] s[i]).0@ == k,
    decreases s.len(),
{
    if s.len() > 0 {
        lemma_store_dom(s.drop_last(), k);
        if s.last().0@ == k {
            assert(s[s.len() - 1].0@ == k);
        } else if store_map(s).contains_key(k) {
            let i = choose|i: int| 0 <= i < s.drop_last().len() && (#[trigger] s.drop_last()[i]).0@
                == k;
            assert(s[i].0@ == k);
        } else {
            if exists|i: int| 0 <= i < s.len() && (#[trigger] s[i]).0@ == k {
                let i = choose|i: int| 0 <= i < s.len() && (#[trigger] s[i]).0@ == k;
                assert(i < s.len() - 1);
                assert(s.drop_last()[i].0@ == k);
            }
        }
    }
}

proof fn lemma_store_at(s: Seq<(Key, Vec<u8>)>, i: int)
    requires
        0 <= i < s.len(),
        forall|j: int| i < j < s.len() ==> (#[trigger] s[j]).0@ != s[i].0@,
    ensures
        store_map(s).contains_key(s[i].0@),
        store_map(s)[s[i].0@] == s[i].1@,
    decreases s.len(),
{
    if i == s.len() - 1 {
    } else {
        assert(s.drop_last()[i] == s[i]);
        lemma_store_at(s.drop_last(), i);
        assert(s.last().0@ != s[i].0@);
    }
}

proof fn lemma_store_update(s: Seq<(Key, Vec<u8>)>, i: int, v: Vec<u8>)
    requires
        0 <= i < s.len(),
        store_keys_distinct(s),
    ensures
        store_map(s.update(i, (s[i].0, v))) == store_map(s).insert(s[i].0@, v@),
    decreases s.len(),
{
    let s2 = s.update(i, (s[i].0, v));
    if i == s.len() - 1 {
        assert(s2.drop_last() =~= s.drop_last());
        assert(s2.last() == (s[i].0, v));
        assert(store_map(s2) =~= store_map(s).insert(s[i].0@, v@));
    } else {
        assert(s2.drop_last() =~= s.drop_last().update(i, (s[i].0, v)));
        assert(s.drop_last()[i] == s[i]);
        assert(store_keys_distinct(s.drop_last())) by {
            assert forall|p: int, q: int| 0 <= p < q < s.drop_last().len() implies (
            #[trigger] s.drop_last()[p]).0@ != (#[trigger] s.drop_last()[q]).0@ by {
                assert(s.drop_last()[p] == s[p] && s.drop_last()[q] == s[q]);
            }
        }
        lemma_store_update(s.drop_last(), i, v);
        assert(s2.last() == s.last());
        assert(s.last().0@ != s[i].0@);
        assert(store_map(s2) =~= store_map(s).insert(s[i].0@, v@));
    }
}

proof fn lemma_store_remove(s: Seq<(Key, Vec<u8>)>, i: int)
    requires
        0 <= i < s.len(),
        store_keys_distinct(s),
    ensures
        store_map(s.remove(i)) == store_map(s).remove(s[i].0@),
    decreases s.len(),
{
    let s2 = s.remove(i);
    assert(store_keys_distinct(s.drop_last())) by {
        assert forall|p: int, q: int| 0 <= p < q < s.drop_last().len() implies (
        #[trigger] s.drop_last()[p]).0@ != (#[trigger] s.drop_last()[q]).0@ by {
            assert(s.drop_last()[p] == s[p] && s.drop_last()[q] == s[q]);
        }
    }
    if i == s.len() - 1 {
        assert(s2 =~= s.drop_last());
        lemma_store_dom(s.drop_last(), s[i].0@);
        assert(!store_map(s.drop_last()).contains_key(s[i].0@)) by {
            if exists|j: int| 0 <= j < s.drop_last().len() && (#[trigger] s.drop_last()[j]).0@
                == s[i].0@ {
                let j = choose|j: int|
                    0 <= j < s.drop_last().len() && (#[trigger] s.drop_last()[j]).0@ == s[i].0@;
                assert(s[j].0@ == s[i].0@);
            }
        }
        assert(store_map(s2) =~= store_map(s).remove(s[i].0@));
    } else {
        assert(s2.drop_last() =~= s.drop_last().remove(i));
        assert(s.drop_last()[i] == s[i]);
        lemma_store_remove(s.drop_last(), i);
        assert(s2.last() == s.last());
        assert(s.last().0@ != s[i].0@);
        assert(store_map(s2) =~= store_map(s).remove(s[i].0@));
    }
}

/// An in-memory key-value store with one entry per key.
pub struct VecStore {
    entries: Vec<(Key, Vec<u8>)>,
}

impl VecStore {
    #[verifier::type_invariant]
    spec fn wf(self) -> bool {
        store_keys_distinct(self.entries@)
    }

    /// An empty store.
    pub fn new() -> (r: VecStore)
        ensures
            r.contents() == Map::<Seq<char>, Seq<u8>>::empty(),
    {
        VecStore { entries: Vec::new() }
    }

    /// The position of the entry for a key, if any.
    fn position(&self, key: &Key) -> (r: Option<usize>)
        ensures
            match r {
                Some(i) => i < self.entries@.len() && self.entries@[i as int].0@ == key@,
                None => forall|j: int|
                    0 <= j < self.entries@.len() ==> (#[trigger] self.entries@[j]).0@ != key@,
            },
    {
        let n = self.entries.len();
        let mut i: usize = 0;
        while i < n
            invariant
                n == self.entries@.len(),
                i <= n,
                forall|j: int| 0 <= j < i ==> (#[trigger] self.entries@[j]).0@ != key@,
            decreases n - i,
        {
            if &self.entries[i].0 == key {
                return Some(i);
            }
            i += 1;
        }
        None
    }
}

impl DBUpdateVisitor for VecStore {
    closed spec fn contents(&self) -> Map<Seq<char>, Seq<u8>> {
        store_map(self.entries@)
    }

    fn read(&self, key: &Key) -> (r: Option<Vec<u8>>) {
        proof {
            use_type_invariant(self);
        }
        match self.position(key) {
            Some(i) => {
                proof {
                    lemma_store_at(self.entries@, i as int);
                }
                Some(self.entries[i].1.clone())
            },
            None => {
                proof {
                    lemma_store_dom(self.entries@, key@);
                }
                None
            },
        }
    }

    fn write(&mut self, key: &Key, value: &Vec<u8>) {
        proof {
            use_type_invariant(&*self);
        }
        let pos = self.position(key);
        let mut entries: Vec<(Key, Vec<u8>)> = Vec::new();
        core::mem::swap(&mut entries, &mut self.entries);
        let ghost s_old = entries@;
        match pos {
            Some(i) => {
                entries[i].1 = value.clone();
                proof {
                    assert(entries@ =~= s_old.update(i as int, (s_old[i as int].0, entries@[i as int].1)));
                    lemma_store_update(s_old, i as int, entries[i as int].1);
                    assert forall|j: int| 0 <= j < entries@.len() implies (
                    #[trigger] entries@[j]).0 == s_old[j].0 by {}
                }
            },
            None => {
                entries.push((key.clone(), value.clone()));
                proof {
                    assert(entries@.drop_last() =~= s_old);
                    assert(store_keys_distinct(entries@)) by {
                        assert forall|p: int, q: int| 0 <= p < q < entries@.len() implies (
                        #[trigger] entries@[p]).0@ != (#[trigger] entries@[q]).0@ by {
                            assert(entries@[p] == s_old[p]);
                            if q < entries@.len() - 1 {
                                assert(entries@[q] == s_old[q]);
                            } else {
                                assert(entries@[q].0@ == key@);
                            }
                        }
                    }
                }
            },
        }
        self.entries = entries;
    }

    fn delete(&mut self, key: &Key) {
        proof {
            use_type_invariant(&*self);
        }
        let pos = self.position(key);
        let mut entries: Vec<(Key, Vec<u8>)> = Vec::new();
        core::mem::swap(&mut entries, &mut self.entries);
        let ghost s_old = entries@;
        match pos {
            Some(i) => {
                entries.remove(i);
                proof {
                    lemma_store_remove(s_old, i as int);
                    assert(store_keys_distinct(entries@)) by {
                        assert forall|p: int, q: int| 0 <= p < q < entries@.len() implies (
                        #[trigger] entries@[p]).0@ != (#[trigger] entries@[q]).0@ by {
                            assert(entries@[p] == s_old.remove(i as int)[p]);
                            assert(entries@[q] == s_old.remove(i as int)[q]);
                            if p < i {
                                assert(s_old.remove(i as int)[p] == s_old[p]);
                            } else {
                                assert(s_old.remove(i as int)[p] == s_old[p + 1]);
                            }
                            if q < i {
                                assert(s_old.remove(i as int)[q] == s_old[q]);
                            } else {
                                assert(s_old.remove(i as int)[q] == s_old[q + 1]);
                            }
                        }
                    }
                }
            },
            None => {
                proof {
                    lemma_store_dom(s_old, key@);
                    assert(store_map(s_old) =~= store_map(s_old).remove(key@));
                }
            },
        }
        self.entries = entries;
    }

    fn get_pattern(&self, pattern: &Pattern) -> (r: Vec<(String, Vec<u8>)>) {
        proof {
            use_type_invariant(self);
        }
        let mut out: Vec<(String, Vec<u8>)> = Vec::new();
        let n = self.entries.len();
        let mut i: usize = 0;
        while i < n
            invariant
                self.wf(),
                n == self.entries@.len(),
                i <= n,
                forall|l: int|
                    0 <= l < out@.len() ==> self.contents().contains_key((#[trigger] out@[l]).0@)
                        && out@[l].1@ == self.contents()[out@[l].0@] && regex_matches(
                        pattern@,
                        out@[l].0@,
                    ),
                forall|l: int|
                    0 <= l < out@.len() ==> exists|j: int|
                        0 <= j < i && (#[trigger] out@[l]).0@ == self.entries@[j].0@,
                forall|j: int|
                    0 <= j < i && regex_matches(pattern@, (#[trigger] self.entries@[j]).0@)
                        ==> exists|l: int| 0 <= l < out@.len() && (#[trigger] out@[l]).0@
                        == self.entries@[j].0@,
                forall|l1: int, l2: int|
                    0 <= l1 < l2 < out@.len() ==> (#[trigger] out@[l1]).0@ != (
                    #[trigger] out@[l2]).0@,
            decreases n - i,
        {
            let hit = pattern.is_match(self.entries[i].0.as_str());
            let ghost out0 = out@;
            if hit {
                proof {
                    lemma_store_at(self.entries@, i as int);
                    assert forall|l: int| 0 <= l < out@.len() implies (#[trigger] out@[l]).0@
                        != self.entries@[i as int].0@ by {
                        let j = choose|j: int|
                            0 <= j < i && (#[trigger] out@[l]).0@ == self.entries@[j].0@;
                        assert(self.entries@[j].0@ != self.entries@[i as int].0@);
                    }
                }
                out.push((self.entries[i].0.to_string_form(), self.entries[i].1.clone()));
            }
            proof {
                assert forall|j: int|
                    0 <= j < i + 1 && regex_matches(
                        pattern@,
                        (#[trigger] self.entries@[j]).0@,
                    ) implies exists|l: int| 0 <= l < out@.len() && (#[trigger] out@[l]).0@
                    == self.entries@[j].0@ by {
                    if j == i {
                        assert(out@[out@.len() - 1].0@ == self.entries@[i as int].0@);
                    } else {
                        let l = choose|l: int|
                            0 <= l < out0.len() && (#[trigger] out0[l]).0@ == self.entries@[j].0@;
                        assert(out@[l].0@ == self.entries@[j].0@);
                    }
                }
            }
            i += 1;
        }
        proof {
            assert forall|k: Seq<char>| #[trigger] matching(self.contents(), pattern@).contains(
                k,
            ) implies exists|l: int| 0 <= l < out@.len() && (#[trigger] out@[l]).0@ == k by {
                lemma_store_dom(self.entries@, k);
                let j = choose|j: int| 0 <= j < self.entries@.len() && (#[trigger] self.entries@[j]).0@
                    == k;
                assert(regex_matches(pattern@, self.entries@[j].0@));
            }
        }
        out
    }
}

} // verus!
