//! A map from strings to values, kept as two parallel vectors without repeated
//! keys. Its view is a finite `Map` from character sequences to the values.

use crate::text::{str_eq, strings_view};
use vstd::prelude::*;
use vstd::string::*;

verus! {

/// A map keyed by strings.
pub struct StringMap<V> {
    keys: Vec<String>,
    values: Vec<V>,
}

impl<V> View for StringMap<V> {
    type V = Map<Seq<char>, V>;

    closed spec fn view(&self) -> Map<Seq<char>, V> {
        Map::new(
            |k: Seq<char>| self.key_seq().contains(k),
            |k: Seq<char>| self.values@[self.key_seq().index_of(k)],
        )
    }
}

impl<V> StringMap<V> {
    /// The keys in the order in which they were first inserted.
    pub closed spec fn key_seq(&self) -> Seq<Seq<char>> {
        strings_view(self.keys@)
    }

    /// The values, each at the position of its key in [`Self::key_seq`].
    pub closed spec fn value_seq(&self) -> Seq<V> {
        self.values@
    }

    /// What every function of the map asks for and keeps: one value for each key,
    /// and no key twice.
    pub closed spec fn wf(&self) -> bool {
        self.keys@.len() == self.values@.len() && self.key_seq().no_duplicates()
    }

    /// How the view and the two sequences hang together: the keys of the view are
    /// those of the key sequence, each once, with the value at the same position.
    pub proof fn lemma_entries(&self)
        requires
            self.wf(),
        ensures
            self.key_seq().len() == self.value_seq().len(),
            self.key_seq().no_duplicates(),
            self@.dom() == self.key_seq().to_set(),
            self@.dom().finite(),
            self@.dom().len() == self.key_seq().len(),
            forall|i: int|
                0 <= i < self.key_seq().len() ==> self@.dom().contains(#[trigger] self.key_seq()[i])
                    && self@[self.key_seq()[i]] == self.value_seq()[i],
    {
        let ks = self.key_seq();
        assert(self@.dom() =~= ks.to_set());
        ks.unique_seq_to_set();
        vstd::seq_lib::seq_to_set_is_finite(ks);
        assert forall|i: int| 0 <= i < ks.len() implies self@.dom().contains(#[trigger] ks[i])
            && self@[ks[i]] == self.value_seq()[i] by {
            assert(ks.contains(ks[i]));
            let j = ks.index_of(ks[i]);
            assert(j == i);
        }
    }

    /// A map without keys.
    pub fn new() -> (m: StringMap<V>)
        ensures
            m.wf(),
            m@ == Map::<Seq<char>, V>::empty(),
    {
        let m = StringMap { keys: Vec::new(), values: Vec::new() };
        assert(m@ =~= Map::<Seq<char>, V>::empty());
        m
    }

    /// The number of keys.
    pub fn len(&self) -> (n: usize)
        requires
            self.wf(),
        ensures
            n == self@.dom().len(),
            n == self.key_seq().len(),
    {
        proof {
            self.lemma_entries();
        }
        self.keys.len()
    }

    fn find(&self, key: &str) -> (r: Option<usize>)
        requires
            self.wf(),
        ensures
            match r {
                Some(i) => i < self.key_seq().len() && self.key_seq()[i as int] == key@
                    && self.key_seq().index_of(key@) == i,
                None => !self.key_seq().contains(key@),
            },
    {
        let mut i: usize = 0;
        while i < self.keys.len()
            invariant
                self.wf(),
                i <= self.keys@.len(),
                forall|k: int| 0 <= k < i ==> (#[trigger] self.key_seq()[k]) != key@,
            decreases self.keys@.len() - i,
        {
            if str_eq(self.keys[i].as_str(), key) {
                assert(self.key_seq()[i as int] == key@);
                return Some(i);
            }
            i += 1;
        }
        None
    }

    /// Whether `key` has a value.
    pub fn contains_key(&self, key: &str) -> (r: bool)
        requires
            self.wf(),
        ensures
            r == self@.dom().contains(key@),
    {
        self.find(key).is_some()
    }

    /// The value of `key`.
    pub fn get(&self, key: &str) -> (r: Option<&V>)
        requires
            self.wf(),
        ensures
            match r {
                Some(v) => self@.dom().contains(key@) && *v == self@[key@],
                None => !self@.dom().contains(key@),
            },
    {
        match self.find(key) {
            Some(i) => Some(&self.values[i]),
            None => None,
        }
    }

    /// The key at position `i` of the key sequence.
    pub fn key_at(&self, i: usize) -> (k: &String)
        requires
            self.wf(),
            i < self.key_seq().len(),
        ensures
            k@ == self.key_seq()[i as int],
    {
        &self.keys[i]
    }

    /// The value at position `i` of the value sequence.
    pub fn value_at(&self, i: usize) -> (v: &V)
        requires
            self.wf(),
            i < self.key_seq().len(),
        ensures
            *v == self.value_seq()[i as int],
    {
        &self.values[i]
    }

    /// Gives `key` the value `value`, in place of the one it had, if any.
    ///
    /// A key that is new goes to the end of the key sequence; one that is not
    /// keeps its place.
    pub fn insert(&mut self, key: &str, value: V)
        requires
            old(self).wf(),
        ensures
            final(self).wf(),
            final(self)@ == old(self)@.insert(key@, value),
            final(self).key_seq() == if old(self)@.dom().contains(key@) {
                old(self).key_seq()
            } else {
                old(self).key_seq().push(key@)
            },
            final(self).value_seq() == if old(self)@.dom().contains(key@) {
                old(self).value_seq().update(old(self).key_seq().index_of(key@), value)
            } else {
                old(self).value_seq().push(value)
            },
    {
        let ghost ks = self.key_seq();
        match self.find(key) {
            Some(i) => {
                self.values.set(i, value);
                proof {
                    assert forall|k: Seq<char>| ks.contains(k) implies #[trigger] self@[k] == old(
                        self,
                    )@.insert(key@, value)[k] by {
                        let j = ks.index_of(k);
                        if k == key@ {
                            assert(j == i);
                        } else {
                            assert(j != i);
                        }
                    }
                    assert(self@ =~= old(self)@.insert(key@, value));
                }
            },
            None => {
                self.keys.push(String::from_str(key));
                self.values.push(value);
                proof {
                    let ns = self.key_seq();
                    assert(ns =~= ks.push(key@));
                    assert(ns.no_duplicates()) by {
                        assert forall|a: int, b: int|
                            0 <= a < ns.len() && 0 <= b < ns.len() && a != b implies ns[a]
                            != ns[b] by {
                            if a < ks.len() {
                                assert(ks.contains(ks[a]));
                            }
                            if b < ks.len() {
                                assert(ks.contains(ks[b]));
                            }
                        }
                    }
                    assert forall|k: Seq<char>| ns.contains(k) <==> (ks.contains(k) || k
                        == key@) by {
                        if ks.contains(k) {
                            let j = ks.index_of(k);
                            assert(ns[j] == k);
                        }
                        if k == key@ {
                            assert(ns[ks.len() as int] == k);
                        }
                    }
                    assert forall|k: Seq<char>| ns.contains(k) implies #[trigger] self@[k] == old(
                        self,
                    )@.insert(key@, value)[k] by {
                        let j = ns.index_of(k);
                        if k == key@ {
                            assert(ns[ks.len() as int] == k);
                            assert(j == ks.len());
                        } else {
                            let o = ks.index_of(k);
                            assert(ns[o] == k);
                            assert(j == o);
                        }
                    }
                    assert(self@ =~= old(self)@.insert(key@, value));
                }
            },
        }
    }

    /// Takes `key` and its value out of the map.
    pub fn remove(&mut self, key: &str) -> (r: Option<V>)
        requires
            old(self).wf(),
        ensures
            final(self).wf(),
            final(self)@ == old(self)@.remove(key@),
            r == if old(self)@.dom().contains(key@) {
                Some(old(self)@[key@])
            } else {
                None
            },
    {
        let ghost ks = self.key_seq();
        match self.find(key) {
            Some(i) => {
                self.keys.remove(i);
                let v = self.values.remove(i);
                proof {
                    let ns = self.key_seq();
                    assert(ns =~= ks.remove(i as int));
                    assert forall|a: int| 0 <= a < ns.len() implies #[trigger] ns[a] == ks[if a
                        < i {
                        a
                    } else {
                        a + 1
                    }] by {}
                    assert(ns.no_duplicates());
                    assert forall|k: Seq<char>| ns.contains(k) <==> (ks.contains(k) && k
                        != key@) by {
                        if ns.contains(k) {
                            let a = ns.index_of(k);
                            let o = if a < i {
                                a
                            } else {
                                a + 1
                            };
                            assert(ks[o] == k);
                        }
                        if ks.contains(k) && k != key@ {
                            let o = ks.index_of(k);
                            let a = if o < i {
                                o
                            } else {
                                o - 1
                            };
                            assert(ns[a] == k);
                        }
                    }
                    assert forall|k: Seq<char>| ns.contains(k) implies #[trigger] self@[k] == old(
                        self,
                    )@[k] by {
                        let a = ns.index_of(k);
                        let o = if a < i {
                            a
                        } else {
                            a + 1
                        };
                        assert(ks[o] == k);
                        assert(ks.index_of(k) == o);
                    }
                    assert(self@ =~= old(self)@.remove(key@));
                }
                Some(v)
            },
            None => {
                assert(self@ =~= old(self)@.remove(key@));
                None
            },
        }
    }
}

} // verus!
