//! Maps and sets keyed by coordinates.
//!
//! A [`CoordMap`] is a hash map from coordinates to values that also
//! remembers the order in which its keys were first inserted, so that
//! walking it is deterministic.  A [`CoordSet`] is the same for a set.

use vstd::prelude::*;
use std::collections::HashMap;
use crate::hex::Coordinate;

verus! {

/// The number under which the hash map files the coordinate `c`.
pub open spec fn key_of(c: Coordinate) -> u64 {
    ((c.x + 0x8000_0000) * 0x1_0000_0000 + (c.y + 0x8000_0000)) as u64
}

/// Different coordinates are filed under different numbers.
pub proof fn lemma_key_of_injective(a: Coordinate, b: Coordinate)
    ensures
        key_of(a) == key_of(b) <==> a == b,
{
}

fn key(c: Coordinate) -> (k: u64)
    ensures
        k == key_of(c),
{
    let hi: u64 = (c.x as i64 + 0x8000_0000) as u64;
    let lo: u64 = (c.y as i64 + 0x8000_0000) as u64;
    hi * 0x1_0000_0000 + lo
}

/// A map from coordinates to values of `V`.
pub struct CoordMap<V> {
    slots: HashMap<u64, V>,
    order: Vec<Coordinate>,
}

impl<V> View for CoordMap<V> {
    type V = Map<Coordinate, V>;

    closed spec fn view(&self) -> Map<Coordinate, V> {
        Map::new(
            |c: Coordinate| self.slots@.contains_key(key_of(c)),
            |c: Coordinate| self.slots@[key_of(c)],
        )
    }
}

impl<V> CoordMap<V> {
    #[verifier::type_invariant]
    spec fn inv(self) -> bool {
        &&& self.order@.no_duplicates()
        &&& forall|i: int|
            0 <= i < self.order@.len() ==> self.slots@.contains_key(
                key_of(#[trigger] self.order@[i]),
            )
        &&& forall|k: u64| #[trigger]
            self.slots@.contains_key(k) ==> exists|i: int|
                0 <= i < self.order@.len() && key_of(#[trigger] self.order@[i]) == k
    }

    /// The keys, in the order in which they were first inserted.
    pub closed spec fn keys(&self) -> Seq<Coordinate> {
        self.order@
    }

    /// Whether `keys` lists each key of `m` once and nothing else.
    pub open spec fn lists(keys: Seq<Coordinate>, m: Map<Coordinate, V>) -> bool {
        &&& keys.no_duplicates()
        &&& forall|c: Coordinate| keys.contains(c) <==> m.contains_key(c)
    }

    proof fn lemma_listed(&self)
        requires
            self.inv(),
        ensures
            Self::lists(self.keys(), self@),
    {
        assert forall|c: Coordinate| self.keys().contains(c) <==> self@.contains_key(c) by {
            if self@.contains_key(c) {
                let i = choose|i: int|
                    0 <= i < self.order@.len() && key_of(#[trigger] self.order@[i]) == key_of(c);
                lemma_key_of_injective(self.order@[i], c);
            }
        }
    }

    /// The map without any entry.
    pub fn new() -> (m: CoordMap<V>)
        ensures
            m@ == Map::<Coordinate, V>::empty(),
            m.keys() == Seq::<Coordinate>::empty(),
    {
        let m = CoordMap { slots: HashMap::new(), order: Vec::new() };
        assert(m@ =~= Map::<Coordinate, V>::empty());
        m
    }

    /// The number of entries.
    pub fn len(&self) -> (n: usize)
        ensures
            n == self.keys().len(),
            Self::lists(self.keys(), self@),
    {
        proof {
            use_type_invariant(self);
            self.lemma_listed();
        }
        self.order.len()
    }

    /// The key that was inserted as the `i`-th.
    pub fn key_at(&self, i: usize) -> (c: Coordinate)
        requires
            i < self.keys().len(),
        ensures
            c == self.keys()[i as int],
            self@.contains_key(c),
    {
        proof {
            use_type_invariant(self);
            self.lemma_listed();
        }
        self.order[i]
    }

    /// Whether `c` has an entry.
    pub fn contains_key(&self, c: Coordinate) -> (b: bool)
        ensures
            b == self@.contains_key(c),
    {
        let k = key(c);
        self.slots.contains_key(&k)
    }

    /// The value at `c`, if it has one.
    pub fn get(&self, c: Coordinate) -> (r: Option<&V>)
        ensures
            r == if self@.contains_key(c) {
                Some(&self@[c])
            } else {
                None
            },
    {
        let k = key(c);
        self.slots.get(&k)
    }

    /// Gives `c` the value `v`.  A new key goes to the end of the order; a
    /// key that was there keeps its place.
    pub fn insert(&mut self, c: Coordinate, v: V)
        ensures
            final(self)@ == old(self)@.insert(c, v),
            final(self).keys() == if old(self)@.contains_key(c) {
                old(self).keys()
            } else {
                old(self).keys().push(c)
            },
    {
        let mut taken: CoordMap<V> = CoordMap::new();
        std::mem::swap(self, &mut taken);
        proof {
            use_type_invariant(&taken);
            taken.lemma_listed();
        }
        let ghost before = taken;
        let CoordMap { slots, order } = taken;
        let mut slots = slots;
        let mut order = order;
        let k = key(c);
        let had = slots.contains_key(&k);
        slots.insert(k, v);
        if !had {
            order.push(c);
        }
        proof {
            assert forall|j: u64| #[trigger] slots@.contains_key(j) implies exists|i: int|
                0 <= i < order@.len() && key_of(#[trigger] order@[i]) == j by {
                if j == k {
                    if had {
                        let i = choose|i: int|
                            0 <= i < before.order@.len() && key_of(#[trigger] before.order@[i])
                                == j;
                        assert(key_of(order@[i]) == j);
                    } else {
                        assert(key_of(order@[order@.len() - 1]) == j);
                    }
                } else {
                    let i = choose|i: int|
                        0 <= i < before.order@.len() && key_of(#[trigger] before.order@[i]) == j;
                    assert(key_of(order@[i]) == j);
                }
            }
            assert forall|i: int, j: int|
                0 <= i < order@.len() && 0 <= j < order@.len() && i != j implies order@[i]
                != order@[j] by {
                if !had {
                    if i == order@.len() - 1 {
                        assert(before.keys().contains(order@[j]));
                    } else if j == order@.len() - 1 {
                        assert(before.keys().contains(order@[i]));
                    }
                }
            }
        }
        *self = CoordMap { slots, order };
        proof {
            assert forall|d: Coordinate| #[trigger]
                self@.contains_key(d) == before@.insert(c, v).contains_key(d) by {
                lemma_key_of_injective(c, d);
            }
            assert forall|d: Coordinate| self@.contains_key(d) implies self@[d] == before@.insert(
                c,
                v,
            )[d] by {
                lemma_key_of_injective(c, d);
            }
            assert(self@ =~= before@.insert(c, v));
        }
    }

    /// Takes the entry of `c` out, and returns its value if it had one.
    /// The other keys keep their order.
    pub fn remove(&mut self, c: Coordinate) -> (r: Option<V>)
        ensures
            final(self)@ == old(self)@.remove(c),
            r == if old(self)@.contains_key(c) {
                Some(old(self)@[c])
            } else {
                None
            },
            final(self).keys() == old(self).keys().filter(|d: Coordinate| d != c),
    {
        let mut taken: CoordMap<V> = CoordMap::new();
        std::mem::swap(self, &mut taken);
        proof {
            use_type_invariant(&taken);
            taken.lemma_listed();
        }
        let ghost before = taken;
        let ghost keep = |d: Coordinate| d != c;
        let CoordMap { slots, order } = taken;
        let mut slots = slots;
        let mut order = order;
        let k = key(c);
        let r = slots.remove(&k);
        let mut i: usize = 0;
        let mut found: Option<usize> = None;
        while i < order.len()
            invariant_except_break
                found.is_none(),
                forall|j: int| 0 <= j < i ==> order@[j] != c,
            invariant
                i <= order.len(),
                order@ == before.order@,
            ensures
                order@ == before.order@,
                match found {
                    Some(at) => at < order.len() && order@[at as int] == c,
                    None => forall|j: int| 0 <= j < order@.len() ==> order@[j] != c,
                },
            decreases order.len() - i,
        {
            if order[i].x == c.x && order[i].y == c.y {
                found = Some(i);
                break ;
            }
            i += 1;
        }
        match found {
            Some(at) => {
                order.remove(at);
                proof {
                    lemma_filter_one(before.order@, at as int, c);
                }
            },
            None => {
                proof {
                    lemma_filter_none(before.order@, c);
                }
            },
        }
        proof {
            assert(order@ == before.order@.filter(keep));
            assert forall|j: u64| #[trigger] slots@.contains_key(j) implies exists|i: int|
                0 <= i < order@.len() && key_of(#[trigger] order@[i]) == j by {
                let at0 = choose|i: int|
                    0 <= i < before.order@.len() && key_of(#[trigger] before.order@[i]) == j;
                let d = before.order@[at0];
                assert(d != c);
                match found {
                    Some(at) => {
                        if at0 < at {
                            assert(order@[at0] == d);
                        } else {
                            assert(order@[at0 - 1] == d);
                        }
                    },
                    None => {
                        assert(order@[at0] == d);
                    },
                }
            }
            assert forall|i: int| 0 <= i < order@.len() implies slots@.contains_key(
                key_of(#[trigger] order@[i]),
            ) by {
                match found {
                    Some(at) => {
                        let ii = if i < at { i } else { i + 1 };
                        assert(order@[i] == before.order@[ii]);
                        assert(before.order@[ii] != before.order@[at as int]);
                        assert(before.slots@.contains_key(key_of(before.order@[ii])));
                    },
                    None => {
                        assert(order@[i] == before.order@[i]);
                        assert(before.slots@.contains_key(key_of(before.order@[i])));
                    },
                }
                lemma_key_of_injective(order@[i], c);
            }
            assert(order@.no_duplicates()) by {
                match found {
                    Some(at) => {
                        assert forall|i: int, j: int|
                            0 <= i < order@.len() && 0 <= j < order@.len() && i != j implies order@[i]
                            != order@[j] by {
                            let ii = if i < at { i } else { i + 1 };
                            let jj = if j < at { j } else { j + 1 };
                            assert(order@[i] == before.order@[ii]);
                            assert(order@[j] == before.order@[jj]);
                        }
                    },
                    None => {},
                }
            }
        }
        proof {
            assert(forall|k: u64| #[trigger]
                slots@.contains_key(k) ==> exists|i: int|
                    0 <= i < order@.len() && key_of(#[trigger] order@[i]) == k);
            let candidate = CoordMap { slots, order };
            assert(candidate.order@ == order@ && candidate.slots@ == slots@);
            assert(forall|k: u64| #[trigger]
                candidate.slots@.contains_key(k) ==> exists|i: int|
                    0 <= i < candidate.order@.len() && key_of(#[trigger] candidate.order@[i])
                        == k);
            assert(candidate.inv());
        }
        *self = CoordMap { slots, order };
        proof {
            assert forall|d: Coordinate| #[trigger]
                self@.contains_key(d) == before@.remove(c).contains_key(d) by {
                lemma_key_of_injective(c, d);
            }
            assert forall|d: Coordinate| self@.contains_key(d) implies self@[d] == before@.remove(
                c,
            )[d] by {
                lemma_key_of_injective(c, d);
            }
            assert(self@ =~= before@.remove(c));
        }
        r
    }
}

/// Filtering the one occurrence of `c` out of a sequence without
/// duplicates removes the entry at its index.
proof fn lemma_filter_one(s: Seq<Coordinate>, at: int, c: Coordinate)
    requires
        s.no_duplicates(),
        0 <= at < s.len(),
        s[at] == c,
    ensures
        s.filter(|d: Coordinate| d != c) == s.remove(at),
    decreases s.len(),
{
    let keep = |d: Coordinate| d != c;
    reveal(Seq::filter);
    if at == s.len() - 1 {
        assert(s.remove(at) =~= s.drop_last());
        assert forall|j: int| 0 <= j < s.drop_last().len() implies s.drop_last()[j] != c by {
            assert(s[j] != s[at]);
        }
        lemma_filter_none(s.drop_last(), c);
    } else {
        assert(s.drop_last().no_duplicates());
        lemma_filter_one(s.drop_last(), at, c);
        assert(s.last() != c) by {
            assert(s[s.len() - 1] != s[at]);
        }
        assert(s.remove(at) =~= s.drop_last().remove(at).push(s.last()));
    }
}

/// Filtering `c` out of a sequence that does not hold it changes nothing.
proof fn lemma_filter_none(s: Seq<Coordinate>, c: Coordinate)
    requires
        forall|j: int| 0 <= j < s.len() ==> s[j] != c,
    ensures
        s.filter(|d: Coordinate| d != c) == s,
    decreases s.len(),
{
    reveal(Seq::filter);
    if s.len() > 0 {
        lemma_filter_none(s.drop_last(), c);
        assert(s.drop_last().push(s.last()) =~= s);
    }
}

/// A set of coordinates.
pub struct CoordSet {
    members: CoordMap<()>,
}

impl View for CoordSet {
    type V = Set<Coordinate>;

    closed spec fn view(&self) -> Set<Coordinate> {
        self.members@.dom()
    }
}

impl CoordSet {
    /// The members, in the order in which they were first inserted.
    pub closed spec fn order(&self) -> Seq<Coordinate> {
        self.members.keys()
    }

    /// Whether `order` lists each member of `s` once and nothing else.
    pub open spec fn lists(order: Seq<Coordinate>, s: Set<Coordinate>) -> bool {
        &&& order.no_duplicates()
        &&& forall|c: Coordinate| order.contains(c) <==> s.contains(c)
    }

    /// The empty set.
    pub fn new() -> (s: CoordSet)
        ensures
            s@ == Set::<Coordinate>::empty(),
            s.order() == Seq::<Coordinate>::empty(),
    {
        let s = CoordSet { members: CoordMap::new() };
        assert(s@ =~= Set::<Coordinate>::empty());
        s
    }

    /// The number of members.
    pub fn len(&self) -> (n: usize)
        ensures
            n == self.order().len(),
            Self::lists(self.order(), self@),
    {
        self.members.len()
    }

    /// The member that was inserted as the `i`-th.
    pub fn nth(&self, i: usize) -> (c: Coordinate)
        requires
            i < self.order().len(),
        ensures
            c == self.order()[i as int],
            self@.contains(c),
    {
        self.members.key_at(i)
    }

    /// Whether `c` is a member.
    pub fn contains(&self, c: Coordinate) -> (b: bool)
        ensures
            b == self@.contains(c),
    {
        self.members.contains_key(c)
    }

    /// Makes `c` a member.  Returns whether it was new.
    pub fn insert(&mut self, c: Coordinate) -> (fresh: bool)
        ensures
            final(self)@ == old(self)@.insert(c),
            fresh == !old(self)@.contains(c),
            final(self).order() == if old(self)@.contains(c) {
                old(self).order()
            } else {
                old(self).order().push(c)
            },
    {
        let fresh = !self.members.contains_key(c);
        self.members.insert(c, ());
        assert(self@ =~= old(self)@.insert(c));
        fresh
    }

    /// A copy of this set, with the same members in the same order.
    pub fn duplicate(&self) -> (s: CoordSet)
        ensures
            s@ == self@,
            s.order() == self.order(),
    {
        let mut s = CoordSet::new();
        let n = self.len();
        let mut i: usize = 0;
        while i < n
            invariant
                i <= n,
                n == self.order().len(),
                Self::lists(self.order(), self@),
                s.order() == self.order().take(i as int),
                forall|c: Coordinate| s@.contains(c) <==> self.order().take(i as int).contains(c),
            decreases n - i,
        {
            let c = self.nth(i);
            let ghost done = self.order().take(i as int);
            proof {
                if done.contains(c) {
                    let j = choose|j: int| 0 <= j < done.len() && done[j] == c;
                    assert(self.order()[j] == self.order()[i as int]);
                }
            }
            s.insert(c);
            i += 1;
            proof {
                let next = self.order().take(i as int);
                assert(next =~= done.push(c));
                assert forall|d: Coordinate| s@.contains(d) <==> next.contains(d) by {
                    if next.contains(d) {
                        let j = choose|j: int| 0 <= j < next.len() && next[j] == d;
                        if j < done.len() {
                            assert(done[j] == d);
                        }
                    }
                    if done.contains(d) {
                        let j = choose|j: int| 0 <= j < done.len() && done[j] == d;
                        assert(next[j] == d);
                    }
                    assert(next[done.len() as int] == c);
                }
            }
        }
        proof {
            assert(self.order().take(n as int) =~= self.order());
            assert(s@ =~= self@);
        }
        s
    }
}

} // verus!
