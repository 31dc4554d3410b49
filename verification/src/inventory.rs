//! What an actor carries: a backpack of lettered items and the items worn
//! or held in the slots of the body.

use vstd::prelude::*;
use crate::item::AnyItem;
use crate::stats::Slot;

verus! {

/// The index of the first entry of `s` with the letter `ch`; the length of
/// `s` where no entry has it.
pub open spec fn position_of<V>(s: Seq<(char, V)>, ch: char) -> int
    decreases s.len(),
{
    if s.len() == 0 {
        0
    } else if s[0].0 == ch {
        0
    } else {
        1 + position_of(s.skip(1), ch)
    }
}

/// `position_of` finds the first entry with the letter, if there is one.
pub proof fn lemma_position_of<V>(s: Seq<(char, V)>, ch: char)
    ensures
        0 <= position_of(s, ch) <= s.len(),
        position_of(s, ch) < s.len() ==> s[position_of(s, ch)].0 == ch,
        forall|i: int| 0 <= i < position_of(s, ch) ==> (#[trigger] s[i]).0 != ch,
    decreases s.len(),
{
    if s.len() > 0 && s[0].0 != ch {
        lemma_position_of(s.skip(1), ch);
        assert forall|i: int| 0 <= i < position_of(s, ch) implies (#[trigger] s[i]).0 != ch by {
            if i > 0 {
                assert(s.skip(1)[i - 1] == s[i]);
            }
        }
    }
}

/// The map that the entries `s` stand for: each letter with the value of
/// its first entry.
pub open spec fn lettered<V>(s: Seq<(char, V)>) -> Map<char, V> {
    Map::new(
        |ch: char| position_of(s, ch) < s.len(),
        |ch: char| s[position_of(s, ch)].1,
    )
}

/// The entries `s` after the letter `ch` was given the value `v`: a letter
/// that was there keeps its place, a new one goes to the end.
pub open spec fn put<V>(s: Seq<(char, V)>, ch: char, v: V) -> Seq<(char, V)> {
    if position_of(s, ch) < s.len() {
        s.update(position_of(s, ch), (ch, v))
    } else {
        s.push((ch, v))
    }
}

/// The entries `s` without the entry of the letter `ch`.
pub open spec fn taken<V>(s: Seq<(char, V)>, ch: char) -> Seq<(char, V)> {
    if position_of(s, ch) < s.len() {
        s.remove(position_of(s, ch))
    } else {
        s
    }
}

/// A map from letters to values of `V` that remembers the order in which
/// its letters were first inserted.
pub struct LetterMap<V> {
    entries: Vec<(char, V)>,
}

impl<V> View for LetterMap<V> {
    type V = Map<char, V>;

    closed spec fn view(&self) -> Map<char, V> {
        lettered(self.entries@)
    }
}

impl<V> LetterMap<V> {
    #[verifier::type_invariant]
    spec fn inv(self) -> bool {
        forall|i: int, j: int|
            0 <= i < j < self.entries@.len() ==> (#[trigger] self.entries@[i]).0 != (
            #[trigger] self.entries@[j]).0
    }

    /// The entries, in the order in which their letters were first
    /// inserted.
    pub closed spec fn entries(&self) -> Seq<(char, V)> {
        self.entries@
    }

    /// The map is the one that its entries stand for.
    pub proof fn lemma_view(&self)
        ensures
            self@ == lettered(self.entries()),
    {
    }

    /// Whether `s` lists each entry of `m` once and nothing else.
    pub open spec fn lists(s: Seq<(char, V)>, m: Map<char, V>) -> bool {
        &&& forall|i: int, j: int| 0 <= i < j < s.len() ==> (#[trigger] s[i]).0 != (#[trigger] s[j]).0
        &&& forall|i: int|
            0 <= i < s.len() ==> m.contains_key((#[trigger] s[i]).0) && m[s[i].0] == s[i].1
        &&& forall|ch: char| #[trigger]
            m.contains_key(ch) ==> 0 <= position_of(s, ch) < s.len() && s[position_of(s, ch)].0
                == ch
    }

    proof fn lemma_listed(&self)
        requires
            self.inv(),
        ensures
            Self::lists(self.entries(), self@),
    {
        let s = self.entries@;
        assert forall|i: int| 0 <= i < s.len() implies self@.contains_key((#[trigger] s[i]).0)
            && self@[s[i].0] == s[i].1 by {
            lemma_position_of(s, s[i].0);
            let p = position_of(s, s[i].0);
            if p < i {
                assert(s[p].0 != s[i].0);
            }
        }
        assert forall|ch: char| #[trigger] self@.contains_key(ch) implies 0 <= position_of(s, ch)
            < s.len() && s[position_of(s, ch)].0 == ch by {
            lemma_position_of(s, ch);
        }
    }

    /// The map without any entry.
    pub fn new() -> (m: LetterMap<V>)
        ensures
            m@ == Map::<char, V>::empty(),
            m.entries() == Seq::<(char, V)>::empty(),
    {
        let m = LetterMap { entries: Vec::new() };
        assert(m@ =~= Map::<char, V>::empty());
        m
    }

    /// The number of entries.
    pub fn len(&self) -> (n: usize)
        ensures
            n == self.entries().len(),
            Self::lists(self.entries(), self@),
    {
        proof {
            use_type_invariant(self);
            self.lemma_listed();
        }
        self.entries.len()
    }

    /// The letter of the entry that was inserted as the `i`-th.
    pub fn letter_at(&self, i: usize) -> (ch: char)
        requires
            i < self.entries().len(),
        ensures
            ch == self.entries()[i as int].0,
            self@.contains_key(ch),
    {
        proof {
            use_type_invariant(self);
            self.lemma_listed();
        }
        self.entries[i].0
    }

    /// The value of the entry that was inserted as the `i`-th.
    pub fn value_at(&self, i: usize) -> (v: &V)
        requires
            i < self.entries().len(),
        ensures
            *v == self.entries()[i as int].1,
            self@[self.entries()[i as int].0] == *v,
    {
        proof {
            use_type_invariant(self);
            self.lemma_listed();
        }
        &self.entries[i].1
    }

    fn find(&self, ch: char) -> (r: Option<usize>)
        ensures
            0 <= position_of(self.entries@, ch) <= self.entries@.len(),
            match r {
                Some(i) => i == position_of(self.entries@, ch) && i < self.entries@.len(),
                None => position_of(self.entries@, ch) == self.entries@.len(),
            },
    {
        let mut i: usize = 0;
        proof {
            lemma_position_of(self.entries@, ch);
        }
        while i < self.entries.len()
            invariant
                i <= self.entries@.len(),
                forall|j: int| 0 <= j < i ==> (#[trigger] self.entries@[j]).0 != ch,
                0 <= position_of(self.entries@, ch) <= self.entries@.len(),
                position_of(self.entries@, ch) < self.entries@.len() ==> self.entries@[position_of(
                    self.entries@,
                    ch,
                )].0 == ch,
                forall|j: int|
                    0 <= j < position_of(self.entries@, ch) ==> (#[trigger] self.entries@[j]).0
                        != ch,
            decreases self.entries.len() - i,
        {
            if self.entries[i].0 == ch {
                proof {
                    let p = position_of(self.entries@, ch);
                    if p < i {
                        assert(self.entries@[p].0 != ch);
                    }
                    if p > i {
                        assert(self.entries@[i as int].0 != ch);
                    }
                }
                return Some(i);
            }
            i += 1;
        }
        proof {
            let p = position_of(self.entries@, ch);
            if p < self.entries@.len() {
                assert(self.entries@[p].0 != ch);
            }
        }
        None
    }

    /// Whether `ch` has an entry.
    pub fn contains_key(&self, ch: char) -> (b: bool)
        ensures
            b == self@.contains_key(ch),
    {
        self.find(ch).is_some()
    }

    /// The value at `ch`, if it has one.
    pub fn get(&self, ch: char) -> (r: Option<&V>)
        ensures
            r == if self@.contains_key(ch) {
                Some(&self@[ch])
            } else {
                None
            },
    {
        match self.find(ch) {
            Some(i) => Some(&self.entries[i].1),
            None => None,
        }
    }

    /// Gives `ch` the value `v`.  A new letter goes to the end of the
    /// order; a letter that was there keeps its place.
    pub fn insert(&mut self, ch: char, v: V)
        ensures
            final(self)@ == old(self)@.insert(ch, v),
            final(self).entries() == put(old(self).entries(), ch, v),
    {
        let mut taken: LetterMap<V> = LetterMap::new();
        std::mem::swap(self, &mut taken);
        proof {
            use_type_invariant(&taken);
            taken.lemma_listed();
        }
        let ghost before = taken;
        let found = taken.find(ch);
        proof {
            lemma_position_of(before.entries@, ch);
        }
        let LetterMap { entries } = taken;
        let mut entries = entries;
        match found {
            Some(i) => {
                entries.set(i, (ch, v));
            },
            None => {
                entries.push((ch, v));
            },
        }
        proof {
            assert forall|i: int, j: int| 0 <= i < j < entries@.len() implies (
            #[trigger] entries@[i]).0 != (#[trigger] entries@[j]).0 by {
                if found.is_none() && j == entries@.len() - 1 {
                    assert(before.entries@[i].0 != ch);
                } else {
                    assert(before.entries@[i].0 != before.entries@[j].0);
                }
            }
        }
        *self = LetterMap { entries };
        proof {
            self.lemma_listed();
            let want = before@.insert(ch, v);
            assert forall|d: char| #[trigger] self@.contains_key(d) == want.contains_key(d) by {
                if want.contains_key(d) {
                    if d == ch {
                        match found {
                            Some(i) => {
                                assert(self.entries@[i as int].0 == d);
                            },
                            None => {
                                assert(self.entries@[self.entries@.len() - 1].0 == d);
                            },
                        }
                    } else {
                        let p = position_of(before.entries@, d);
                        assert(before.entries@[p].0 == d);
                        assert(self.entries@[p].0 == d);
                    }
                }
                if self@.contains_key(d) {
                    let p = position_of(self.entries@, d);
                    assert(self.entries@[p].0 == d);
                    if d != ch {
                        assert(before.entries@[p].0 == d);
                    }
                }
            }
            assert forall|d: char| self@.contains_key(d) implies self@[d] == want[d] by {
                let p = position_of(self.entries@, d);
                assert(self.entries@[p].0 == d);
                if d != ch {
                    assert(before.entries@[p] == self.entries@[p]);
                    assert(before@[before.entries@[p].0] == before.entries@[p].1);
                } else {
                    match found {
                        Some(i) => {
                            assert(self.entries@[i as int].0 == d);
                            assert(self@[self.entries@[i as int].0] == self.entries@[i as int].1);
                        },
                        None => {
                            let l = self.entries@.len() - 1;
                            assert(self.entries@[l].0 == d);
                            assert(self@[self.entries@[l].0] == self.entries@[l].1);
                        },
                    }
                }
            }
            assert(self@ =~= want);
        }
    }

    /// Takes the entry of `ch` out, and returns its value if it had one.
    /// The other entries keep their order.
    pub fn remove(&mut self, ch: char) -> (r: Option<V>)
        ensures
            final(self)@ == old(self)@.remove(ch),
            r == if old(self)@.contains_key(ch) {
                Some(old(self)@[ch])
            } else {
                None
            },
            final(self).entries() == taken(old(self).entries(), ch),
    {
        let mut taken: LetterMap<V> = LetterMap::new();
        std::mem::swap(self, &mut taken);
        proof {
            use_type_invariant(&taken);
            taken.lemma_listed();
        }
        let ghost before = taken;
        let found = taken.find(ch);
        proof {
            lemma_position_of(before.entries@, ch);
        }
        let LetterMap { entries } = taken;
        let mut entries = entries;
        let r = match found {
            Some(i) => {
                let (_, v) = entries.remove(i);
                Some(v)
            },
            None => None,
        };
        proof {
            assert forall|i: int, j: int| 0 <= i < j < entries@.len() implies (
            #[trigger] entries@[i]).0 != (#[trigger] entries@[j]).0 by {
                match found {
                    Some(at) => {
                        let ii = if i < at { i } else { i + 1 };
                        let jj = if j < at { j } else { j + 1 };
                        assert(before.entries@[ii].0 != before.entries@[jj].0);
                    },
                    None => {
                        assert(before.entries@[i].0 != before.entries@[j].0);
                    },
                }
            }
        }
        *self = LetterMap { entries };
        proof {
            self.lemma_listed();
            let want = before@.remove(ch);
            assert forall|d: char| #[trigger] self@.contains_key(d) == want.contains_key(d) by {
                if want.contains_key(d) {
                    let p = position_of(before.entries@, d);
                    assert(before.entries@[p].0 == d);
                    match found {
                        Some(at) => {
                            let q = if p < at { p } else { p - 1 };
                            assert(self.entries@[q].0 == d);
                        },
                        None => {
                            assert(self.entries@[p].0 == d);
                        },
                    }
                }
                if self@.contains_key(d) {
                    let p = position_of(self.entries@, d);
                    assert(self.entries@[p].0 == d);
                    match found {
                        Some(at) => {
                            let q = if p < at { p } else { p + 1 };
                            assert(before.entries@[q].0 == d);
                            assert(before.entries@[at as int].0 == ch);
                            if d == ch {
                                assert(before.entries@[q].0 != before.entries@[at as int].0);
                            }
                        },
                        None => {
                            assert(before.entries@[p].0 == d);
                        },
                    }
                }
            }
            assert forall|d: char| self@.contains_key(d) implies self@[d] == want[d] by {
                let p = position_of(self.entries@, d);
                assert(self.entries@[p].0 == d);
                match found {
                    Some(at) => {
                        let q = if p < at { p } else { p + 1 };
                        assert(before.entries@[q] == self.entries@[p]);
                        assert(before@[before.entries@[q].0] == before.entries@[q].1);
                    },
                    None => {
                        assert(before.entries@[p] == self.entries@[p]);
                        assert(before@[before.entries@[p].0] == before.entries@[p].1);
                    },
                }
            }
            assert(self@ =~= want);
            if found.is_some() {
                let at = found.unwrap() as int;
                assert(before@[before.entries@[at].0] == before.entries@[at].1);
            }
        }
        r
    }
}

impl Slot {
    /// The number of the slot, in the order of the declaration.
    pub open spec fn number(self) -> int {
        match self {
            Slot::Head => 0,
            Slot::Feet => 1,
            Slot::LHand => 2,
            Slot::RHand => 3,
            Slot::Body => 4,
            Slot::Cloak => 5,
            Slot::Quick => 6,
        }
    }

    /// The slot with the number `n`; the last slot for a number beyond it.
    pub open spec fn numbered(n: int) -> Slot {
        if n == 0 {
            Slot::Head
        } else if n == 1 {
            Slot::Feet
        } else if n == 2 {
            Slot::LHand
        } else if n == 3 {
            Slot::RHand
        } else if n == 4 {
            Slot::Body
        } else if n == 5 {
            Slot::Cloak
        } else {
            Slot::Quick
        }
    }

    /// The number of the slot, in the order of the declaration.
    pub fn index(self) -> (n: usize)
        ensures
            n == self.number(),
            n < 7,
    {
        match self {
            Slot::Head => 0,
            Slot::Feet => 1,
            Slot::LHand => 2,
            Slot::RHand => 3,
            Slot::Body => 4,
            Slot::Cloak => 5,
            Slot::Quick => 6,
        }
    }

    /// The slot with the number `n`; the last slot for a number beyond it.
    pub fn from_index(n: usize) -> (s: Slot)
        ensures
            s == Slot::numbered(n as int),
            n < 7 ==> s.number() == n,
    {
        if n == 0 {
            Slot::Head
        } else if n == 1 {
            Slot::Feet
        } else if n == 2 {
            Slot::LHand
        } else if n == 3 {
            Slot::RHand
        } else if n == 4 {
            Slot::Body
        } else if n == 5 {
            Slot::Cloak
        } else {
            Slot::Quick
        }
    }
}

/// The number of the first slot, in the order of the declaration, whose
/// item has the letter `ch`; 7 where none has.
pub open spec fn slot_with(worn: Map<Slot, (char, AnyItem)>, ch: char, from: int) -> int
    decreases 7 - from,
{
    if from >= 7 {
        7
    } else if worn.contains_key(Slot::numbered(from)) && worn[Slot::numbered(from)].0 == ch {
        from
    } else {
        slot_with(worn, ch, from + 1)
    }
}

/// The items worn or held, at most one in each slot, each with the letter
/// that it goes by.
pub struct Equipment {
    worn: Vec<Option<(char, AnyItem)>>,
}

impl View for Equipment {
    type V = Map<Slot, (char, AnyItem)>;

    closed spec fn view(&self) -> Map<Slot, (char, AnyItem)> {
        Map::new(
            |s: Slot| self.worn@[s.number()] is Some,
            |s: Slot| self.worn@[s.number()]->0,
        )
    }
}

impl Equipment {
    #[verifier::type_invariant]
    spec fn inv(self) -> bool {
        self.worn@.len() == 7
    }

    /// Nothing worn or held.
    pub fn new() -> (e: Equipment)
        ensures
            e@ == Map::<Slot, (char, AnyItem)>::empty(),
    {
        let mut worn: Vec<Option<(char, AnyItem)>> = Vec::new();
        worn.push(None);
        worn.push(None);
        worn.push(None);
        worn.push(None);
        worn.push(None);
        worn.push(None);
        worn.push(None);
        let e = Equipment { worn };
        assert(e@ =~= Map::<Slot, (char, AnyItem)>::empty());
        e
    }

    /// What is in the slot `s`, if anything.
    pub fn get(&self, s: Slot) -> (r: Option<(char, AnyItem)>)
        ensures
            r == if self@.contains_key(s) {
                Some(self@[s])
            } else {
                None
            },
    {
        proof {
            use_type_invariant(self);
        }
        self.worn[s.index()]
    }

    /// Puts `item` under the letter `ch` into the slot `s`, in place of
    /// what was there.
    pub fn insert(&mut self, s: Slot, ch: char, item: AnyItem)
        ensures
            final(self)@ == old(self)@.insert(s, (ch, item)),
    {
        let mut taken = Equipment::new();
        std::mem::swap(self, &mut taken);
        proof {
            use_type_invariant(&taken);
        }
        let ghost before = taken;
        let Equipment { worn } = taken;
        let mut worn = worn;
        worn.set(s.index(), Some((ch, item)));
        *self = Equipment { worn };
        proof {
            assert forall|t: Slot| #[trigger]
                self@.contains_key(t) == before@.insert(s, (ch, item)).contains_key(t) by {
                assert(t.number() == s.number() <==> t == s);
            }
            assert forall|t: Slot| self@.contains_key(t) implies self@[t] == before@.insert(
                s,
                (ch, item),
            )[t] by {
                assert(t.number() == s.number() <==> t == s);
            }
            assert(self@ =~= before@.insert(s, (ch, item)));
        }
    }

    /// Empties the slot `s`, and returns what was there.
    pub fn remove(&mut self, s: Slot) -> (r: Option<(char, AnyItem)>)
        ensures
            final(self)@ == old(self)@.remove(s),
            r == if old(self)@.contains_key(s) {
                Some(old(self)@[s])
            } else {
                None
            },
    {
        let mut taken = Equipment::new();
        std::mem::swap(self, &mut taken);
        proof {
            use_type_invariant(&taken);
        }
        let ghost before = taken;
        let Equipment { worn } = taken;
        let mut worn = worn;
        let r = worn[s.index()];
        worn.set(s.index(), None);
        *self = Equipment { worn };
        proof {
            assert forall|t: Slot| #[trigger]
                self@.contains_key(t) == before@.remove(s).contains_key(t) by {
                assert(t.number() == s.number() <==> t == s);
            }
            assert forall|t: Slot| self@.contains_key(t) implies self@[t] == before@.remove(
                s,
            )[t] by {
                assert(t.number() == s.number() <==> t == s);
            }
            assert(self@ =~= before@.remove(s));
        }
        r
    }

    /// The first slot, in the order of the declaration, whose item has the
    /// letter `ch`.
    pub fn slot_of(&self, ch: char) -> (r: Option<Slot>)
        ensures
            r == if slot_with(self@, ch, 0) < 7 {
                Some(Slot::numbered(slot_with(self@, ch, 0)))
            } else {
                None
            },
    {
        proof {
            use_type_invariant(self);
        }
        let mut n: usize = 0;
        while n < 7
            invariant
                n <= 7,
                self.worn@.len() == 7,
                slot_with(self@, ch, 0) == slot_with(self@, ch, n as int),
            decreases 7 - n,
        {
            let s = Slot::from_index(n);
            match self.worn[n] {
                Some((letter, _)) => {
                    if letter == ch {
                        return Some(s);
                    }
                },
                None => {},
            }
            n += 1;
        }
        None
    }
}

} // verus!
