//! A small map keyed by texts, each key held once.

use vstd::prelude::*;
use crate::text::{str_eq, views};

verus! {

/// Entries in insertion order; no key occurs twice.
pub struct TextMap<V: View> {
    entries: Vec<(String, V)>,
}

pub open spec fn entry_keys<V>(s: Seq<(String, V)>) -> Seq<Seq<char>> {
    s.map_values(|p: (String, V)| p.0@)
}

/// The index of key `k` among entries whose keys are distinct.
pub open spec fn key_index<V>(s: Seq<(String, V)>, k: Seq<char>) -> int {
    choose|i: int| 0 <= i < s.len() && #[trigger] s[i].0@ == k
}

pub open spec fn entries_map<V: View>(s: Seq<(String, V)>) -> Map<Seq<char>, V::V> {
    Map::new(|k: Seq<char>| entry_keys(s).contains(k), |k: Seq<char>| s[key_index(s, k)].1@)
}

impl<V: View> TextMap<V> {
    pub closed spec fn wf(&self) -> bool {
        entry_keys(self.entries@).no_duplicates()
    }

    pub closed spec fn map(&self) -> Map<Seq<char>, V::V> {
        entries_map(self.entries@)
    }

    /// The empty map.
    pub fn new() -> (r: TextMap<V>)
        ensures
            r.wf(),
            r@ =~= Map::empty(),
    {
        let r = TextMap { entries: Vec::new() };
        assert(entry_keys(r.entries@) =~= Seq::<Seq<char>>::empty());
        assert(r@ =~= Map::empty());
        r
    }

    fn find(&self, key: &str) -> (r: Option<usize>)
        requires
            self.wf(),
        ensures
            r matches Some(i) ==> i < self.entries@.len() && self.entries@[i as int].0@ == key@
                && key_index(self.entries@, key@) == i,
            r is None ==> !entry_keys(self.entries@).contains(key@),
    {
        let mut i: usize = 0;
        while i < self.entries.len()
            invariant
                self.wf(),
                i <= self.entries.len(),
                forall|k: int| 0 <= k < i ==> #[trigger] self.entries@[k].0@ != key@,
            decreases self.entries.len() - i,
        {
            if str_eq(self.entries[i].0.as_str(), key) {
                proof {
                    let s = self.entries@;
                    let j = key_index(s, key@);
                    assert(s[i as int].0@ == key@);
                    assert(0 <= j < s.len() && s[j].0@ == key@);
                    assert(entry_keys(s)[j] == entry_keys(s)[i as int]);
                }
                return Some(i);
            }
            i = i + 1;
        }
        proof {
            let s = self.entries@;
            if entry_keys(s).contains(key@) {
                let k = choose|k: int| 0 <= k < entry_keys(s).len() && entry_keys(s)[k] == key@;
                assert(s[k].0@ == key@);
            }
        }
        None
    }

    /// The value held for `key`.
    pub fn get(&self, key: &str) -> (r: Option<&V>)
        requires
            self.wf(),
        ensures
            r is Some <==> self@.contains_key(key@),
            r matches Some(v) ==> self@[key@] == v@,
    {
        match self.find(key) {
            Some(i) => {
                assert(entry_keys(self.entries@)[i as int] == key@);
                Some(&self.entries[i].1)
            },
            None => None,
        }
    }

    /// The keys held, each once.
    pub fn keys(&self) -> (r: Vec<String>)
        requires
            self.wf(),
        ensures
            views(r@).no_duplicates(),
            forall|k: Seq<char>| views(r@).contains(k) <==> self@.contains_key(k),
    {
        let mut out: Vec<String> = Vec::new();
        let mut i: usize = 0;
        while i < self.entries.len()
            invariant
                self.wf(),
                i <= self.entries.len(),
                views(out@) == entry_keys(self.entries@).take(i as int),
            decreases self.entries.len() - i,
        {
            let key = self.entries[i].0.clone();
            let ghost before = out@;
            out.push(key);
            proof {
                assert(views(out@) =~= views(before).push(self.entries@[i as int].0@));
                assert(entry_keys(self.entries@).take(i + 1) =~= entry_keys(self.entries@).take(i as int).push(
                    self.entries@[i as int].0@,
                ));
            }
            i = i + 1;
        }
        assert(entry_keys(self.entries@).take(i as int) =~= entry_keys(self.entries@));
        out
    }

    /// Hold `value` for `key`, replacing what was held.
    pub fn insert(&mut self, key: String, value: V)
        requires
            old(self).wf(),
        ensures
            final(self).wf(),
            final(self)@ == old(self)@.insert(key@, value@),
    {
        let ghost s0 = self.entries@;
        let ghost k = key@;
        let ghost v = value@;
        match self.find(key.as_str()) {
            Some(i) => {
                self.entries.set(i, (key, value));
                proof {
                    let s1 = self.entries@;
                    assert(entry_keys(s1) =~= entry_keys(s0));
                    assert(entry_keys(s0)[i as int] == k);
                    assert(entry_keys(s0).contains(k));
                    assert forall|x: Seq<char>| #[trigger] entry_keys(s1).contains(x) implies
                        s1[key_index(s1, x)].1@ == (if x == k { v } else { s0[key_index(s0, x)].1@ }) by {
                        let j1 = key_index(s1, x);
                        let j0 = key_index(s0, x);
                        let w = choose|w: int| 0 <= w < entry_keys(s1).len() && entry_keys(s1)[w] == x;
                        assert(s1[w].0@ == x);
                        assert(entry_keys(s0)[j0] == entry_keys(s0)[j1]);
                        assert(j0 == j1);
                        if x == k {
                            assert(entry_keys(s0)[j0] == entry_keys(s0)[i as int]);
                        }
                    }
                    assert(entries_map(s1) =~= entries_map(s0).insert(k, v));
                }
            },
            None => {
                self.entries.push((key, value));
                proof {
                    let s1 = self.entries@;
                    assert(entry_keys(s1) =~= entry_keys(s0).push(k));
                    assert forall|x: Seq<char>| #[trigger] entry_keys(s1).contains(x) implies
                        s1[key_index(s1, x)].1@ == (if x == k { v } else { s0[key_index(s0, x)].1@ }) by {
                        let j1 = key_index(s1, x);
                        let w = choose|w: int| 0 <= w < entry_keys(s1).len() && entry_keys(s1)[w] == x;
                        assert(s1[w].0@ == x);
                        assert(entry_keys(s1)[j1] == x);
                        if x == k {
                            assert(entry_keys(s1)[s0.len() as int] == k);
                            if j1 < s0.len() {
                                assert(entry_keys(s0)[j1] == k);
                            }
                        } else {
                            assert(j1 < s0.len());
                            assert(entry_keys(s0)[j1] == x);
                            let j0 = key_index(s0, x);
                            assert(entry_keys(s0)[j0] == x);
                            assert(j0 == j1);
                        }
                    }
                    assert forall|x: Seq<char>| entry_keys(s1).contains(x) <==> (entry_keys(s0).contains(x) || x == k) by {
                        if entry_keys(s0).contains(x) {
                            let w = choose|w: int| 0 <= w < entry_keys(s0).len() && entry_keys(s0)[w] == x;
                            assert(entry_keys(s1)[w] == x);
                        }
                        if x == k {
                            assert(entry_keys(s1)[s0.len() as int] == k);
                        }
                    }
                    assert(entries_map(s1) =~= entries_map(s0).insert(k, v));
                }
            },
        }
    }

    /// Forget `key`; forgetting a key that is not held changes nothing.
    pub fn remove(&mut self, key: &str)
        requires
            old(self).wf(),
        ensures
            final(self).wf(),
            final(self)@ == old(self)@.remove(key@),
    {
        let ghost s0 = self.entries@;
        match self.find(key) {
            Some(i) => {
                self.entries.remove(i);
                proof {
                    let s1 = self.entries@;
                    let k0 = entry_keys(s0);
                    let k1 = entry_keys(s1);
                    assert(k1 =~= k0.remove(i as int));
                    assert forall|a: int, b: int| 0 <= a < b < k1.len() implies k1[a] != k1[b] by {
                        let a0 = if a < i { a } else { a + 1 };
                        let b0 = if b < i { b } else { b + 1 };
                        assert(k1[a] == k0[a0]);
                        assert(k1[b] == k0[b0]);
                    }
                    assert forall|x: Seq<char>| k1.contains(x) <==> (k0.contains(x) && x != key@) by {
                        if k1.contains(x) {
                            let w = choose|w: int| 0 <= w < k1.len() && k1[w] == x;
                            let w0 = if w < i { w } else { w + 1 };
                            assert(k0[w0] == x);
                            assert(k0[i as int] == key@);
                            assert(k0[w0] != k0[i as int]);
                        }
                        if k0.contains(x) && x != key@ {
                            let w = choose|w: int| 0 <= w < k0.len() && k0[w] == x;
                            assert(w != i);
                            if w < i {
                                assert(k1[w] == x);
                            } else {
                                assert(k1[w - 1] == x);
                            }
                        }
                    }
                    assert forall|x: Seq<char>| #[trigger] k1.contains(x) implies
                        s1[key_index(s1, x)].1@ == s0[key_index(s0, x)].1@ by {
                        let j1 = key_index(s1, x);
                        let w = choose|w: int| 0 <= w < k1.len() && k1[w] == x;
                        assert(s1[w].0@ == x);
                        assert(k1[j1] == x);
                        let j0 = if j1 < i { j1 } else { j1 + 1 };
                        assert(s0[j0] == s1[j1]);
                        assert(k0[j0] == x);
                        let c0 = key_index(s0, x);
                        assert(k0[c0] == x);
                        assert(c0 == j0);
                    }
                    assert(entries_map(s1) =~= entries_map(s0).remove(key@));
                }
            },
            None => {
                assert(entries_map(s0).remove(key@) =~= entries_map(s0));
            },
        }
    }
}

impl<V: View> View for TextMap<V> {
    type V = Map<Seq<char>, V::V>;

    open spec fn view(&self) -> Map<Seq<char>, V::V> {
        self.map()
    }
}

} // verus!
