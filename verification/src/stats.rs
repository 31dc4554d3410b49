//! Races, attributes and the records that combat leaves behind.

use vstd::prelude::*;
use vstd::std_specs::ops::AddSpecImpl;
use vstd::std_specs::ops::SubSpecImpl;
use crate::arith::clip;
use crate::arith::minus;
use crate::arith::plus;

verus! {

/// The race of an actor.
#[derive(Copy, Clone, PartialEq, Eq, Structural, Debug)]
pub enum Race {
    Human,
    Elf,
    Dwarf,
    Rat,
    Goblin,
}

impl Race {
    /// The name of the race, as a sequence of characters.
    pub open spec fn name(self) -> Seq<char> {
        match self {
            Race::Human => "Human"@,
            Race::Elf => "Elf"@,
            Race::Dwarf => "Dwarf"@,
            Race::Rat => "Rat"@,
            Race::Goblin => "Goblin"@,
        }
    }

    /// The name of the race.
    pub fn description(&self) -> (s: String)
        ensures
            s@ == self.name(),
    {
        match *self {
            Race::Human => "Human",
            Race::Elf => "Elf",
            Race::Dwarf => "Dwarf",
            Race::Rat => "Rat",
            Race::Goblin => "Goblin",
        }.to_owned()
    }
}

/// The attributes of an actor, or a change of them.
#[derive(Copy, Clone, PartialEq, Eq, Structural, Debug)]
pub struct Stats {
    pub int: i32,
    pub dex: i32,
    pub str_: i32,
    pub max_hp: i32,
    pub max_mp: i32,
    pub max_sp: i32,
    pub ac: i32,
    pub ev: i32,
    pub infravision: i32,
    pub vision: i32,
}

/// Attributes together with the numbers that melee combat derives from them.
#[derive(Copy, Clone, PartialEq, Eq, Structural, Debug)]
pub struct EffectiveStats {
    pub base: Stats,
    pub melee_dmg: i32,
    pub melee_acc: i32,
    pub melee_str_req: i32,
}

impl Stats {
    /// The attributes that every actor of `race` starts with.
    pub open spec fn of_race(race: Race) -> Stats {
        match race {
            Race::Human => Stats {
                int: 3,
                dex: 3,
                str_: 3,
                max_hp: 20,
                max_mp: 10,
                max_sp: 10,
                ac: 0,
                ev: 1,
                infravision: 0,
                vision: 10,
            },
            Race::Elf => Stats {
                int: 4,
                dex: 4,
                str_: 2,
                max_hp: 15,
                max_mp: 15,
                max_sp: 10,
                ac: 0,
                ev: 2,
                infravision: 2,
                vision: 12,
            },
            Race::Dwarf => Stats {
                int: 2,
                dex: 2,
                str_: 5,
                max_hp: 25,
                max_mp: 5,
                max_sp: 15,
                ac: 1,
                ev: 0,
                infravision: 3,
                vision: 8,
            },
            Race::Rat => Stats {
                int: 1,
                dex: 3,
                str_: 1,
                max_hp: 5,
                max_mp: 0,
                max_sp: 5,
                ac: 0,
                ev: 2,
                infravision: 2,
                vision: 6,
            },
            Race::Goblin => Stats {
                int: 2,
                dex: 2,
                str_: 2,
                max_hp: 10,
                max_mp: 0,
                max_sp: 10,
                ac: 0,
                ev: 1,
                infravision: 4,
                vision: 8,
            },
        }
    }

    /// The attributes with every entry zero.
    pub open spec fn zero() -> Stats {
        Stats {
            int: 0,
            dex: 0,
            str_: 0,
            max_hp: 0,
            max_mp: 0,
            max_sp: 0,
            ac: 0,
            ev: 0,
            infravision: 0,
            vision: 0,
        }
    }

    /// The entrywise sum, each entry clipped into the range of `i32`.
    pub open spec fn sum(self, s: Stats) -> Stats {
        Stats {
            int: clip(self.int + s.int) as i32,
            dex: clip(self.dex + s.dex) as i32,
            str_: clip(self.str_ + s.str_) as i32,
            max_hp: clip(self.max_hp + s.max_hp) as i32,
            max_mp: clip(self.max_mp + s.max_mp) as i32,
            max_sp: clip(self.max_sp + s.max_sp) as i32,
            ac: clip(self.ac + s.ac) as i32,
            ev: clip(self.ev + s.ev) as i32,
            infravision: clip(self.infravision + s.infravision) as i32,
            vision: clip(self.vision + s.vision) as i32,
        }
    }

    /// The entrywise difference, each entry clipped into the range of `i32`.
    pub open spec fn difference(self, s: Stats) -> Stats {
        Stats {
            int: clip(self.int - s.int) as i32,
            dex: clip(self.dex - s.dex) as i32,
            str_: clip(self.str_ - s.str_) as i32,
            max_hp: clip(self.max_hp - s.max_hp) as i32,
            max_mp: clip(self.max_mp - s.max_mp) as i32,
            max_sp: clip(self.max_sp - s.max_sp) as i32,
            ac: clip(self.ac - s.ac) as i32,
            ev: clip(self.ev - s.ev) as i32,
            infravision: clip(self.infravision - s.infravision) as i32,
            vision: clip(self.vision - s.vision) as i32,
        }
    }

    /// These attributes with no combat numbers added.
    pub open spec fn effective(self) -> EffectiveStats {
        EffectiveStats { base: self, melee_dmg: 0, melee_acc: 0, melee_str_req: 0 }
    }

    /// The attributes that every actor of `race` starts with.
    pub fn new(race: Race) -> (s: Stats)
        ensures
            s == Stats::of_race(race),
    {
        match race {
            Race::Goblin => Stats {
                int: 2,
                dex: 2,
                str_: 2,
                max_hp: 10,
                max_mp: 0,
                max_sp: 10,
                ac: 0,
                ev: 1,
                infravision: 4,
                vision: 8,
            },
            Race::Rat => Stats {
                int: 1,
                dex: 3,
                str_: 1,
                max_hp: 5,
                max_mp: 0,
                max_sp: 5,
                ac: 0,
                ev: 2,
                infravision: 2,
                vision: 6,
            },
            Race::Elf => Stats {
                int: 4,
                dex: 4,
                str_: 2,
                max_hp: 15,
                max_mp: 15,
                max_sp: 10,
                ac: 0,
                ev: 2,
                infravision: 2,
                vision: 12,
            },
            Race::Human => Stats {
                int: 3,
                dex: 3,
                str_: 3,
                max_hp: 20,
                max_mp: 10,
                max_sp: 10,
                ac: 0,
                ev: 1,
                infravision: 0,
                vision: 10,
            },
            Race::Dwarf => Stats {
                int: 2,
                dex: 2,
                str_: 5,
                max_hp: 25,
                max_mp: 5,
                max_sp: 15,
                ac: 1,
                ev: 0,
                infravision: 3,
                vision: 8,
            },
        }
    }

    /// These attributes with no combat numbers added.
    pub fn to_effective(&self) -> (e: EffectiveStats)
        ensures
            e == self.effective(),
    {
        let mut efs = EffectiveStats::default();
        efs.base = *self;
        efs
    }
}

impl Default for Stats {
    fn default() -> (s: Stats)
        ensures
            s == Stats::zero(),
    {
        Stats {
            int: 0,
            dex: 0,
            str_: 0,
            max_hp: 0,
            max_mp: 0,
            max_sp: 0,
            ac: 0,
            ev: 0,
            infravision: 0,
            vision: 0,
        }
    }
}

impl EffectiveStats {
    /// The effective attributes with every entry zero.
    pub open spec fn zero() -> EffectiveStats {
        EffectiveStats { base: Stats::zero(), melee_dmg: 0, melee_acc: 0, melee_str_req: 0 }
    }

    /// The entrywise sum, each entry clipped into the range of `i32`.
    pub open spec fn sum(self, s: EffectiveStats) -> EffectiveStats {
        EffectiveStats {
            base: self.base.sum(s.base),
            melee_dmg: clip(self.melee_dmg + s.melee_dmg) as i32,
            melee_acc: clip(self.melee_acc + s.melee_acc) as i32,
            melee_str_req: clip(self.melee_str_req + s.melee_str_req) as i32,
        }
    }

    /// The entrywise difference, each entry clipped into the range of `i32`.
    pub open spec fn difference(self, s: EffectiveStats) -> EffectiveStats {
        EffectiveStats {
            base: self.base.difference(s.base),
            melee_dmg: clip(self.melee_dmg - s.melee_dmg) as i32,
            melee_acc: clip(self.melee_acc - s.melee_acc) as i32,
            melee_str_req: clip(self.melee_str_req - s.melee_str_req) as i32,
        }
    }
}

impl Default for EffectiveStats {
    fn default() -> (s: EffectiveStats)
        ensures
            s == EffectiveStats::zero(),
    {
        EffectiveStats { base: Stats::default(), melee_dmg: 0, melee_acc: 0, melee_str_req: 0 }
    }
}

impl core::ops::Add for Stats {
    type Output = Stats;

    fn add(self, s: Stats) -> (r: Stats) {
        Stats {
            int: plus(self.int, s.int),
            dex: plus(self.dex, s.dex),
            str_: plus(self.str_, s.str_),
            max_hp: plus(self.max_hp, s.max_hp),
            max_mp: plus(self.max_mp, s.max_mp),
            max_sp: plus(self.max_sp, s.max_sp),
            ac: plus(self.ac, s.ac),
            ev: plus(self.ev, s.ev),
            infravision: plus(self.infravision, s.infravision),
            vision: plus(self.vision, s.vision),
        }
    }
}

impl AddSpecImpl for Stats {
    open spec fn obeys_add_spec() -> bool {
        true
    }

    open spec fn add_req(self, s: Stats) -> bool {
        true
    }

    open spec fn add_spec(self, s: Stats) -> Stats {
        self.sum(s)
    }
}

impl core::ops::Sub for Stats {
    type Output = Stats;

    fn sub(self, s: Stats) -> (r: Stats) {
        Stats {
            int: minus(self.int, s.int),
            dex: minus(self.dex, s.dex),
            str_: minus(self.str_, s.str_),
            max_hp: minus(self.max_hp, s.max_hp),
            max_mp: minus(self.max_mp, s.max_mp),
            max_sp: minus(self.max_sp, s.max_sp),
            ac: minus(self.ac, s.ac),
            ev: minus(self.ev, s.ev),
            infravision: minus(self.infravision, s.infravision),
            vision: minus(self.vision, s.vision),
        }
    }
}

impl SubSpecImpl for Stats {
    open spec fn obeys_sub_spec() -> bool {
        true
    }

    open spec fn sub_req(self, s: Stats) -> bool {
        true
    }

    open spec fn sub_spec(self, s: Stats) -> Stats {
        self.difference(s)
    }
}

impl core::ops::Add for EffectiveStats {
    type Output = EffectiveStats;

    fn add(self, s: EffectiveStats) -> (r: EffectiveStats) {
        EffectiveStats {
            base: self.base + s.base,
            melee_dmg: plus(self.melee_dmg, s.melee_dmg),
            melee_acc: plus(self.melee_acc, s.melee_acc),
            melee_str_req: plus(self.melee_str_req, s.melee_str_req),
        }
    }
}

impl AddSpecImpl for EffectiveStats {
    open spec fn obeys_add_spec() -> bool {
        true
    }

    open spec fn add_req(self, s: EffectiveStats) -> bool {
        true
    }

    open spec fn add_spec(self, s: EffectiveStats) -> EffectiveStats {
        self.sum(s)
    }
}

impl core::ops::Sub for EffectiveStats {
    type Output = EffectiveStats;

    fn sub(self, s: EffectiveStats) -> (r: EffectiveStats) {
        EffectiveStats {
            base: self.base - s.base,
            melee_dmg: minus(self.melee_dmg, s.melee_dmg),
            melee_acc: minus(self.melee_acc, s.melee_acc),
            melee_str_req: minus(self.melee_str_req, s.melee_str_req),
        }
    }
}

impl SubSpecImpl for EffectiveStats {
    open spec fn obeys_sub_spec() -> bool {
        true
    }

    open spec fn sub_req(self, s: EffectiveStats) -> bool {
        true
    }

    open spec fn sub_spec(self, s: EffectiveStats) -> EffectiveStats {
        self.difference(s)
    }
}

/// A place on the body where one item can be worn or held.
#[derive(Copy, Clone, PartialEq, Eq, Structural, Debug, Hash, PartialOrd, Ord)]
pub enum Slot {
    Head,
    Feet,
    LHand,
    RHand,
    Body,
    Cloak,
    Quick,
}

/// What one attack did, as the attacker and the target each record it.
#[derive(Clone, PartialEq, Eq, Debug)]
pub struct AttackResult {
    /// Whether the attack hit.
    pub success: bool,
    /// The damage left after the armour took its share.
    pub dmg: i32,
    /// The description of the opponent.
    pub who: String,
    /// Whether the attack came from the side or from behind.
    pub behind: bool,
}

/// The mathematical content of an [`AttackResult`].
pub struct AttackRecord {
    pub success: bool,
    pub dmg: i32,
    pub who: Seq<char>,
    pub behind: bool,
}

impl View for AttackResult {
    type V = AttackRecord;

    open spec fn view(&self) -> AttackRecord {
        AttackRecord { success: self.success, dmg: self.dmg, who: self.who@, behind: self.behind }
    }
}

} // verus!
