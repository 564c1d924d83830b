//! A set of names that are claimed for exclusive work.
//!
//! Whoever claims a name first gets to do the work for it; everyone else is
//! turned away until the claim is released. The artist store claims artist
//! names for downloads, and the external cover art worker claims cache keys
//! for lookups in flight.

use vstd::prelude::*;
use crate::text::{owned, str_eq, views};

verus! {

/// The names currently claimed, each at most once.
pub struct ClaimSet {
    keys: Vec<String>,
}

impl ClaimSet {
    /// The claimed names.
    pub closed spec fn names(&self) -> Set<Seq<char>> {
        views(self.keys@).to_set()
    }

    /// No name is held twice.
    pub closed spec fn wf(&self) -> bool {
        views(self.keys@).no_duplicates()
    }

    /// Nothing claimed.
    pub fn new() -> (r: ClaimSet)
        ensures
            r.wf(),
            r@ == crate::text::no_names(),
    {
        let r = ClaimSet { keys: Vec::new() };
        assert(views(r.keys@) == Seq::<Seq<char>>::empty());
        assert(r@ =~= Set::<Seq<char>>::empty());
        r
    }

    fn index_of(&self, key: &str) -> (r: Option<usize>)
        ensures
            r matches Some(i) ==> i < self.keys@.len() && self.keys@[i as int]@ == key@,
            r is None ==> !views(self.keys@).contains(key@),
    {
        let mut i: usize = 0;
        while i < self.keys.len()
            invariant
                i <= self.keys.len(),
                forall|k: int| 0 <= k < i ==> #[trigger] self.keys@[k]@ != key@,
            decreases self.keys.len() - i,
        {
            if str_eq(self.keys[i].as_str(), key) {
                return Some(i);
            }
            i = i + 1;
        }
        proof {
            if views(self.keys@).contains(key@) {
                let k = choose|k: int| 0 <= k < views(self.keys@).len() && views(self.keys@)[k] == key@;
                assert(self.keys@[k]@ == key@);
            }
        }
        None
    }

    /// Whether `key` is claimed.
    pub fn contains(&self, key: &str) -> (r: bool)
        ensures
            r == self@.contains(key@),
    {
        match self.index_of(key) {
            Some(i) => {
                assert(views(self.keys@)[i as int] == key@);
                true
            },
            None => false,
        }
    }

    /// Claim `key`: `true` when it was free and is now held, `false` when
    /// someone already holds it (and nothing changes).
    pub fn claim(&mut self, key: &str) -> (r: bool)
        requires
            old(self).wf(),
        ensures
            final(self).wf(),
            r == !old(self)@.contains(key@),
            final(self)@ == old(self)@.insert(key@),
    {
        if self.contains(key) {
            assert(old(self)@.insert(key@) =~= old(self)@);
            return false;
        }
        let ghost before = views(self.keys@);
        self.keys.push(owned(key));
        proof {
            let after = views(self.keys@);
            assert(after =~= before.push(key@));
            assert forall|x: Seq<char>| after.contains(x) <==> before.to_set().insert(key@).contains(x) by {
                if after.contains(x) {
                    let k = choose|k: int| 0 <= k < after.len() && after[k] == x;
                    if k < before.len() {
                        assert(before[k] == x);
                    }
                }
                if before.contains(x) {
                    let k = choose|k: int| 0 <= k < before.len() && before[k] == x;
                    assert(after[k] == x);
                }
                if x == key@ {
                    assert(after[before.len() as int] == x);
                }
            }
            assert(after.to_set() =~= before.to_set().insert(key@));
        }
        true
    }

    /// Release `key`; releasing a name nobody holds changes nothing.
    pub fn release(&mut self, key: &str)
        requires
            old(self).wf(),
        ensures
            final(self).wf(),
            final(self)@ == old(self)@.remove(key@),
    {
        match self.index_of(key) {
            Some(i) => {
                let ghost before = views(self.keys@);
                self.keys.remove(i);
                proof {
                    let after = views(self.keys@);
                    assert(after =~= before.remove(i as int));
                    assert forall|a: int, b: int| 0 <= a < b < after.len() implies after[a] != after[b] by {
                        let a0 = if a < i { a } else { a + 1 };
                        let b0 = if b < i { b } else { b + 1 };
                        assert(after[a] == before[a0]);
                        assert(after[b] == before[b0]);
                    }
                    assert forall|x: Seq<char>| after.contains(x) <==> before.to_set().remove(key@).contains(x) by {
                        if after.contains(x) {
                            let k = choose|k: int| 0 <= k < after.len() && after[k] == x;
                            let k0 = if k < i { k } else { k + 1 };
                            assert(before[k0] == x);
                            assert(k0 != i);
                            assert(before[i as int] == key@);
                            assert(before[k0] != before[i as int]);
                        }
                        if before.contains(x) && x != key@ {
                            let k = choose|k: int| 0 <= k < before.len() && before[k] == x;
                            assert(k != i);
                            if k < i {
                                assert(after[k] == x);
                            } else {
                                assert(after[k - 1] == x);
                            }
                        }
                    }
                    assert(after.to_set() =~= before.to_set().remove(key@));
                }
            },
            None => {
                assert(old(self)@.remove(key@) =~= old(self)@);
            },
        }
    }
}

impl View for ClaimSet {
    type V = Set<Seq<char>>;

    open spec fn view(&self) -> Set<Seq<char>> {
        self.names()
    }
}

/// A claim excludes every later claim of the same name until it is released,
/// and releasing it makes the name claimable again; claims of other names are
/// unaffected.
pub proof fn law_claim_is_exclusive_until_released(held: Set<Seq<char>>, name: Seq<char>, other: Seq<char>)
    requires
        name != other,
    ensures
        held.insert(name).contains(name),
        !held.insert(name).remove(name).contains(name),
        held.insert(name).remove(name).contains(other) == held.contains(other),
{
}

} // verus!
