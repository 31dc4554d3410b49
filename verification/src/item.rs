//! Items: what an actor can carry, wear and use.

use vstd::prelude::*;
use crate::stats::EffectiveStats;
use crate::stats::Slot;
use crate::stats::Stats;

verus! {

/// The broad class of an item.
#[derive(Copy, Clone, PartialEq, Eq, Structural, Debug)]
pub enum Type {
    Weapon,
    Armor,
    Potion,
}

/// What every item can tell about itself.
pub trait Item {
    /// The item's name.
    spec fn name(&self) -> Seq<char>;

    /// The item's class.
    spec fn class(&self) -> Type;

    /// The slot that the item is worn or held in, if it can be equipped.
    spec fn fits(&self) -> Option<Slot>;

    /// What the item adds to the attributes of the actor that has it equipped.
    spec fn bonus(&self) -> EffectiveStats;

    /// Whether the item is used up rather than equipped.
    spec fn usable(&self) -> bool;

    /// The item's name.
    fn description(&self) -> (s: String)
        ensures
            s@ == self.name(),
    ;

    /// The item's class.
    fn type_(&self) -> (t: Type)
        ensures
            t == self.class(),
    ;

    /// The slot that the item is worn or held in, if it can be equipped.
    fn slot(&self) -> (s: Option<Slot>)
        ensures
            s == self.fits(),
    ;

    /// What the item adds to the attributes of the actor that has it equipped.
    fn stats(&self) -> (s: EffectiveStats)
        ensures
            s == self.bonus(),
    ;

    /// Whether the item is used up rather than equipped.
    fn is_usable(&self) -> (u: bool)
        ensures
            u == self.usable(),
    ;
}

/// A weapon for the right hand.
#[derive(Copy, Clone, PartialEq, Eq, Structural, Debug)]
pub struct Weapon {
    /// The damage that the weapon adds to a melee attack.
    pub base_dmg: i32,
}

impl Weapon {
    /// A sword.
    pub fn new() -> (w: Weapon)
        ensures
            w == (Weapon { base_dmg: 1 }),
    {
        Weapon { base_dmg: 1 }
    }
}

impl Item for Weapon {
    open spec fn name(&self) -> Seq<char> {
        "sword"@
    }

    open spec fn class(&self) -> Type {
        Type::Weapon
    }

    open spec fn fits(&self) -> Option<Slot> {
        Some(Slot::RHand)
    }

    open spec fn bonus(&self) -> EffectiveStats {
        EffectiveStats {
            base: Stats::zero(),
            melee_dmg: self.base_dmg,
            melee_acc: 0,
            melee_str_req: 0,
        }
    }

    open spec fn usable(&self) -> bool {
        false
    }

    fn description(&self) -> (s: String) {
        "sword".to_owned()
    }

    fn type_(&self) -> (t: Type) {
        Type::Weapon
    }

    fn slot(&self) -> (s: Option<Slot>) {
        Some(Slot::RHand)
    }

    fn stats(&self) -> (s: EffectiveStats) {
        EffectiveStats {
            base: Stats::default(),
            melee_dmg: self.base_dmg,
            melee_acc: 0,
            melee_str_req: 0,
        }
    }

    fn is_usable(&self) -> (u: bool) {
        false
    }
}

/// A suit of armour for the body.
#[derive(Copy, Clone, PartialEq, Eq, Structural, Debug)]
pub struct Armor {
    /// The armour class that the suit adds.
    pub ac: i32,
}

impl Item for Armor {
    open spec fn name(&self) -> Seq<char> {
        "armor"@
    }

    open spec fn class(&self) -> Type {
        Type::Armor
    }

    open spec fn fits(&self) -> Option<Slot> {
        Some(Slot::Body)
    }

    open spec fn bonus(&self) -> EffectiveStats {
        EffectiveStats {
            base: Stats { ac: self.ac, ..Stats::zero() },
            melee_dmg: 0,
            melee_acc: 0,
            melee_str_req: 0,
        }
    }

    open spec fn usable(&self) -> bool {
        false
    }

    fn description(&self) -> (s: String) {
        "armor".to_owned()
    }

    fn type_(&self) -> (t: Type) {
        Type::Armor
    }

    fn slot(&self) -> (s: Option<Slot>) {
        Some(Slot::Body)
    }

    fn stats(&self) -> (s: EffectiveStats) {
        let mut base = Stats::default();
        base.ac = self.ac;
        EffectiveStats { base, melee_dmg: 0, melee_acc: 0, melee_str_req: 0 }
    }

    fn is_usable(&self) -> (u: bool) {
        false
    }
}

/// A potion that heals the actor that drinks it.
#[derive(Copy, Clone, PartialEq, Eq, Structural, Debug)]
pub struct Potion {
    /// The hit points that the potion gives back.
    pub heal: i32,
}

impl Item for Potion {
    open spec fn name(&self) -> Seq<char> {
        "potion"@
    }

    open spec fn class(&self) -> Type {
        Type::Potion
    }

    open spec fn fits(&self) -> Option<Slot> {
        None
    }

    open spec fn bonus(&self) -> EffectiveStats {
        EffectiveStats::zero()
    }

    open spec fn usable(&self) -> bool {
        true
    }

    fn description(&self) -> (s: String) {
        "potion".to_owned()
    }

    fn type_(&self) -> (t: Type) {
        Type::Potion
    }

    fn slot(&self) -> (s: Option<Slot>) {
        None
    }

    fn stats(&self) -> (s: EffectiveStats) {
        EffectiveStats::default()
    }

    fn is_usable(&self) -> (u: bool) {
        true
    }
}

/// Any item that can lie on the floor or be carried.
#[derive(Copy, Clone, PartialEq, Eq, Structural, Debug)]
pub enum AnyItem {
    Weapon(Weapon),
    Armor(Armor),
    Potion(Potion),
}

impl Item for AnyItem {
    open spec fn name(&self) -> Seq<char> {
        match *self {
            AnyItem::Weapon(w) => w.name(),
            AnyItem::Armor(a) => a.name(),
            AnyItem::Potion(p) => p.name(),
        }
    }

    open spec fn class(&self) -> Type {
        match *self {
            AnyItem::Weapon(w) => w.class(),
            AnyItem::Armor(a) => a.class(),
            AnyItem::Potion(p) => p.class(),
        }
    }

    open spec fn fits(&self) -> Option<Slot> {
        match *self {
            AnyItem::Weapon(w) => w.fits(),
            AnyItem::Armor(a) => a.fits(),
            AnyItem::Potion(p) => p.fits(),
        }
    }

    open spec fn bonus(&self) -> EffectiveStats {
        match *self {
            AnyItem::Weapon(w) => w.bonus(),
            AnyItem::Armor(a) => a.bonus(),
            AnyItem::Potion(p) => p.bonus(),
        }
    }

    open spec fn usable(&self) -> bool {
        match *self {
            AnyItem::Weapon(w) => w.usable(),
            AnyItem::Armor(a) => a.usable(),
            AnyItem::Potion(p) => p.usable(),
        }
    }

    fn description(&self) -> (s: String) {
        match self {
            AnyItem::Weapon(w) => w.description(),
            AnyItem::Armor(a) => a.description(),
            AnyItem::Potion(p) => p.description(),
        }
    }

    fn type_(&self) -> (t: Type) {
        match self {
            AnyItem::Weapon(w) => w.type_(),
            AnyItem::Armor(a) => a.type_(),
            AnyItem::Potion(p) => p.type_(),
        }
    }

    fn slot(&self) -> (s: Option<Slot>) {
        match self {
            AnyItem::Weapon(w) => w.slot(),
            AnyItem::Armor(a) => a.slot(),
            AnyItem::Potion(p) => p.slot(),
        }
    }

    fn stats(&self) -> (s: EffectiveStats) {
        match self {
            AnyItem::Weapon(w) => w.stats(),
            AnyItem::Armor(a) => a.stats(),
            AnyItem::Potion(p) => p.stats(),
        }
    }

    fn is_usable(&self) -> (u: bool) {
        match self {
            AnyItem::Weapon(w) => w.is_usable(),
            AnyItem::Armor(a) => a.is_usable(),
            AnyItem::Potion(p) => p.is_usable(),
        }
    }
}

impl AnyItem {
    /// The hit points that using the item gives back; 0 for an item that
    /// is not a potion.
    pub open spec fn heals(self) -> int {
        match self {
            AnyItem::Potion(p) => p.heal as int,
            _ => 0,
        }
    }

    /// The hit points that using the item gives back; 0 for an item that
    /// is not a potion.
    pub fn healing(&self) -> (h: i32)
        ensures
            h == self.heals(),
    {
        match self {
            AnyItem::Potion(p) => p.heal,
            _ => 0,
        }
    }
}

} // verus!
