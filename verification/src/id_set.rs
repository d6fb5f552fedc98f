//! A set of texts, such as the interface identifiers a user has hidden.
use vstd::prelude::*;

use crate::text::str_equal;

verus! {

/// A set of texts (interface identifiers).
///
/// The texts are held in a `Vec`, not in a `HashSet`: the specification of
/// `HashSet` with `String` elements gives no usable contract for membership,
/// insertion and removal, and this form lets every operation be proved
/// against the set it stands for.
pub struct IdSet {
    items: Vec<String>,
}

/// The texts that occur in `v`.
pub open spec fn texts_of(v: Seq<String>) -> Set<Seq<char>> {
    Set::new(|k: Seq<char>| exists|i: int| 0 <= i < v.len() && (#[trigger] v[i])@ == k)
}

impl View for IdSet {
    type V = Set<Seq<char>>;

    closed spec fn view(&self) -> Set<Seq<char>> {
        texts_of(self.items@)
    }
}

impl IdSet {
    /// The empty set.
    pub fn new() -> (r: IdSet)
        ensures
            r@ == Set::<Seq<char>>::empty(),
    {
        let r = IdSet { items: Vec::new() };
        assert(r@ =~= Set::<Seq<char>>::empty());
        r
    }

    /// The set of the texts in `v`.
    pub fn from_strings(v: Vec<String>) -> (r: IdSet)
        ensures
            r@ == texts_of(v@),
    {
        IdSet { items: v }
    }

    /// Whether `k` is in the set.
    pub fn contains(&self, k: &str) -> (r: bool)
        ensures
            r == self@.contains(k@),
    {
        let mut i: usize = 0;
        while i < self.items.len()
            invariant
                i <= self.items@.len(),
                forall|m: int| 0 <= m < i ==> (#[trigger] self.items@[m])@ != k@,
            decreases self.items@.len() - i,
        {
            if str_equal(self.items[i].as_str(), k) {
                return true;
            }
            i = i + 1;
        }
        false
    }

    /// Adds `k`; answers whether it was absent before.
    pub fn insert(&mut self, k: String) -> (r: bool)
        ensures
            final(self)@ == old(self)@.insert(k@),
            r == !old(self)@.contains(k@),
    {
        if self.contains(k.as_str()) {
            assert(self@.insert(k@) =~= self@);
            return false;
        }
        let ghost before = self.items@;
        let ghost kv = k@;
        self.items.push(k);
        proof {
            assert forall|x: Seq<char>| #[trigger] self@.contains(x) == texts_of(before).insert(kv).contains(x) by {
                if texts_of(before).contains(x) && x != kv {
                    let i = choose|i: int| 0 <= i < before.len() && (#[trigger] before[i])@ == x;
                    assert(self.items@[i] == before[i]);
                }
                if self@.contains(x) && x != kv {
                    let i = choose|i: int| 0 <= i < self.items@.len() && (#[trigger] self.items@[i])@ == x;
                    assert(i < before.len());
                    assert(self.items@[i] == before[i]);
                }
                if x == kv {
                    assert(self.items@[before.len() as int]@ == x);
                }
            }
            assert(self@ =~= texts_of(before).insert(kv));
        }
        true
    }

    /// Removes `k`; answers whether it was present before.
    pub fn remove(&mut self, k: &str) -> (r: bool)
        ensures
            final(self)@ == old(self)@.remove(k@),
            r == old(self)@.contains(k@),
    {
        let ghost before = self.items@;
        let mut kept: Vec<String> = Vec::new();
        let mut found = false;
        let mut i: usize = 0;
        while i < self.items.len()
            invariant
                i <= self.items@.len(),
                self.items@ == before,
                forall|x: Seq<char>| #[trigger] texts_of(kept@).contains(x) <==> (x != k@ && exists|m: int|
                    0 <= m < i && (#[trigger] before[m])@ == x),
                found <==> exists|m: int| 0 <= m < i && (#[trigger] before[m])@ == k@,
            decreases self.items@.len() - i,
        {
            let ghost kept0 = kept@;
            if str_equal(self.items[i].as_str(), k) {
                found = true;
            } else {
                kept.push(self.items[i].clone());
            }
            proof {
                assert forall|x: Seq<char>| #[trigger] texts_of(kept@).contains(x) <==> (x != k@ && exists|m: int|
                    0 <= m < i + 1 && (#[trigger] before[m])@ == x) by {
                    if texts_of(kept@).contains(x) {
                        let j = choose|j: int| 0 <= j < kept@.len() && (#[trigger] kept@[j])@ == x;
                        if j < kept0.len() {
                            assert(kept0[j] == kept@[j]);
                            assert(texts_of(kept0).contains(x));
                        } else {
                            assert(before[i as int]@ == x);
                        }
                    }
                    if x != k@ && exists|m: int| 0 <= m < i + 1 && (#[trigger] before[m])@ == x {
                        let m = choose|m: int| 0 <= m < i + 1 && (#[trigger] before[m])@ == x;
                        if m < i {
                            assert(texts_of(kept0).contains(x));
                            let j = choose|j: int| 0 <= j < kept0.len() && (#[trigger] kept0[j])@ == x;
                            assert(kept@[j] == kept0[j]);
                        } else {
                            assert(kept@[kept0.len() as int]@ == x);
                        }
                    }
                }
            }
            i = i + 1;
        }
        self.items = kept;
        proof {
            assert forall|x: Seq<char>| #[trigger] self@.contains(x) == texts_of(before).remove(k@).contains(x) by {
                if texts_of(before).contains(x) {
                    let m = choose|m: int| 0 <= m < before.len() && (#[trigger] before[m])@ == x;
                }
            }
            assert(self@ =~= texts_of(before).remove(k@));
        }
        found
    }

    /// The texts of the set.
    pub fn to_strings(&self) -> (r: Vec<String>)
        ensures
            texts_of(r@) == self@,
    {
        let mut out: Vec<String> = Vec::new();
        let mut i: usize = 0;
        while i < self.items.len()
            invariant
                i <= self.items@.len(),
                out@.len() == i,
                forall|m: int| 0 <= m < i ==> (#[trigger] out@[m])@ == self.items@[m]@,
            decreases self.items@.len() - i,
        {
            out.push(self.items[i].clone());
            i = i + 1;
        }
        proof {
            assert forall|x: Seq<char>| #[trigger] texts_of(out@).contains(x) == self@.contains(x) by {
                if texts_of(out@).contains(x) {
                    let m = choose|m: int| 0 <= m < out@.len() && (#[trigger] out@[m])@ == x;
                    assert(self.items@[m]@ == x);
                }
                if self@.contains(x) {
                    let m = choose|m: int| 0 <= m < self.items@.len() && (#[trigger] self.items@[m])@ == x;
                    assert(out@[m]@ == x);
                }
            }
            assert(texts_of(out@) =~= self@);
        }
        out
    }
}

impl Clone for IdSet {
    fn clone(&self) -> (r: Self)
        ensures
            r@ == self@,
    {
        IdSet { items: self.to_strings() }
    }
}

} // verus!
