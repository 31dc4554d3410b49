//! Actors: their attributes, inventory, senses and the hooks that a tick
//! runs on each of them.

use vstd::prelude::*;
use crate::action::Action;
use crate::arith::at_least;
use crate::arith::at_most;
use crate::arith::clip;
use crate::arith::half;
use crate::arith::halve;
use crate::arith::larger;
use crate::arith::minus;
use crate::arith::plus;
use crate::arith::smaller;
use crate::arith::twice;
use crate::coordmap::CoordMap;
use crate::coordmap::CoordSet;
use crate::hex::Angle;
use crate::hex::Coordinate;
use crate::hex::Direction;
use crate::hex::Position;
use crate::dice::can_roll;
use crate::dice::roll;
use crate::dice::roll_armor;
use crate::inventory::lettered;
use crate::inventory::put;
use crate::inventory::slot_with;
use crate::inventory::taken;
use crate::inventory::Equipment;
use crate::inventory::LetterMap;
use crate::item::AnyItem;
use crate::item::Item;
use crate::stats::AttackRecord;
use crate::stats::AttackResult;
use crate::stats::EffectiveStats;
use crate::stats::Race;
use crate::stats::Slot;
use crate::stats::Stats;
use crate::hex::lemma_world_within_reach;
use crate::location::Location;
use crate::sight::seen;
use crate::sight::shows;
use crate::tile::tile_on;
use crate::tile::Area;
use crate::tile::Kind;
use crate::tile::Tile;
use crate::tile::DIM_LIMIT;

verus! {

/// The number that names an actor within its location.
pub type Id = u32;

/// What an actor hears.
#[derive(Copy, Clone, PartialEq, Eq, Structural, Debug)]
pub enum Noise {
    /// The noise of a creature of the given race.
    Creature(Race),
}

/// The radius of the noise that one step makes.
pub const STEP_NOISE: i32 = 2;

/// The radius of the noise that an actor makes when it is hit.
pub const HIT_NOISE: i32 = 7;

/// The strength from which a charge costs no stamina.
pub const CHARGE_STRENGTH: i32 = 10;

/// The number of letters that items of the backpack can go by.
pub const LETTERS: u8 = 50;

/// The cooldown that using an item costs.
pub const USE_COST: i32 = 2;

/// The letter with the number `n`: `a` to `y`, then `A` to `Y`.
pub open spec fn letter(n: int) -> char {
    if n < 25 {
        (97 + n) as char
    } else {
        (65 + n - 25) as char
    }
}

/// The cooldown that putting an item into the slot `slot`, or taking it
/// out, costs.
pub open spec fn slot_cost(slot: Slot) -> int {
    if slot == Slot::Body {
        4
    } else {
        2
    }
}

/// Whether an attack in the direction `dir` comes from the side of, or
/// from behind, a target that faces `facing`: it does unless it goes
/// straight against the target's heading, that is, unless the direction
/// of the attack is the target's heading turned back.
pub open spec fn from_behind(dir: Direction, facing: Direction) -> bool {
    dir.relative_to(facing) != Angle::Back
}

fn nth_letter(n: u8) -> (ch: char)
    requires
        n < LETTERS,
    ensures
        ch == letter(n as int),
{
    if n < 25 {
        (97u8 + n) as char
    } else {
        (65u8 + n - 25) as char
    }
}

fn cost_of(slot: Slot) -> (c: i32)
    ensures
        c == slot_cost(slot),
{
    match slot {
        Slot::Body => 4,
        _ => 2,
    }
}

/// The cells that the sequence `s` lists.
pub open spec fn cells(s: Seq<Coordinate>) -> Set<Coordinate> {
    Set::new(|c: Coordinate| s.contains(c))
}

/// The cells of a sequence grow by one with each entry.
pub proof fn lemma_cells_step(s: Seq<Coordinate>, i: int)
    requires
        0 <= i < s.len(),
    ensures
        cells(s.take(i + 1)) == cells(s.take(i)).insert(s[i]),
        cells(s.take(0)) == Set::<Coordinate>::empty(),
        cells(s.take(s.len() as int)) == cells(s),
{
    let a = s.take(i);
    let b = s.take(i + 1);
    assert(b =~= a.push(s[i]));
    assert forall|c: Coordinate| cells(b).contains(c) <==> cells(a).insert(s[i]).contains(c) by {
        if cells(b).contains(c) {
            let j = choose|j: int| 0 <= j < b.len() && b[j] == c;
            if j < i {
                assert(a[j] == c);
            }
        }
        if cells(a).contains(c) {
            let j = choose|j: int| 0 <= j < a.len() && a[j] == c;
            assert(b[j] == c);
        }
        assert(b[i] == s[i]);
    }
    assert(cells(b) =~= cells(a).insert(s[i]));
    assert(cells(s.take(0)) =~= Set::<Coordinate>::empty());
    assert(s.take(s.len() as int) =~= s);
}

/// The centers of the areas that the cells `among` are part of, on a map
/// with the entries `tiles`.
pub open spec fn centers(tiles: Map<Coordinate, Tile>, among: Set<Coordinate>) -> Set<Coordinate> {
    Set::new(
        |k: Coordinate|
            exists|c: Coordinate|
                among.contains(c) && #[trigger] tile_on(tiles, c).area == Some(Area { center: k }),
    )
}

/// Whether one of the cells `among` holds stairs, on a map with the
/// entries `tiles`.
pub open spec fn stairs_among(tiles: Map<Coordinate, Tile>, among: Set<Coordinate>) -> bool {
    exists|c: Coordinate| among.contains(c) && #[trigger] tile_on(tiles, c).kind == Kind::Stairs
}

/// An actor.
pub struct Actor {
    pub hp: i32,
    pub mp: i32,
    pub sp: i32,
    pub saved_hp: i32,
    pub saved_mp: i32,
    pub saved_sp: i32,
    pub player: bool,
    /// The position at the start of the tick.
    pub pre_pos: Option<Position>,
    pub pos: Position,
    /// Whether the actor's last action was anything but a wait.
    pub acted: bool,
    /// Whether the actor has taken the stairs down and waits to be moved
    /// to the next level.
    pub descending: bool,
    pub race: Race,
    /// The attributes of the race.
    pub base_stats: Stats,
    /// What the equipped items add.
    pub mod_stats: EffectiveStats,
    /// The attributes in effect, as the last end of a tick computed them.
    pub stats: EffectiveStats,
    /// The line of sight from the position at the end of the tick.
    pub in_los: CoordSet,
    /// The lines of sight from every position that the actor has held in
    /// this tick.
    pub temporary_los: CoordSet,
    /// What the actor sees now: in the line of sight, and lit or near.
    pub visible: CoordSet,
    /// Every cell that the actor has seen on this level.
    pub known: CoordSet,
    /// The centers of the areas that the actor has seen a cell of.
    pub known_areas: CoordSet,
    /// The cells that became known in this tick.
    pub discovered: CoordSet,
    /// The centers of the areas that became known in this tick.
    pub discovered_areas: CoordSet,
    /// What the actor heard in this tick, by the cell it came from.
    pub heared: CoordMap<Noise>,
    /// The radius of the noise that the actor made in this tick.
    pub noise_emision: i32,
    /// How far the actor's own light reaches.
    pub light_emision: u32,
    /// The ticks that have to pass before the actor can act again.
    pub action_cd: i32,
    /// The letters that were given to items of the backpack.
    pub items_letters: LetterMap<()>,
    pub items_equipped: Equipment,
    pub items_backpack: LetterMap<AnyItem>,
    /// The attacks on this actor in this tick.
    pub was_attacked_by: Vec<AttackResult>,
    /// The attacks of this actor in this tick.
    pub did_attack: Vec<AttackResult>,
}

/// The mathematical content of an [`Actor`].
pub struct ActorView {
    pub hp: i32,
    pub mp: i32,
    pub sp: i32,
    pub saved_hp: i32,
    pub saved_mp: i32,
    pub saved_sp: i32,
    pub player: bool,
    pub pre_pos: Option<Position>,
    pub pos: Position,
    pub acted: bool,
    pub descending: bool,
    pub race: Race,
    pub base_stats: Stats,
    pub mod_stats: EffectiveStats,
    pub stats: EffectiveStats,
    pub in_los: Set<Coordinate>,
    pub temporary_los: Set<Coordinate>,
    pub visible: Set<Coordinate>,
    pub known: Set<Coordinate>,
    pub known_areas: Set<Coordinate>,
    pub discovered: Set<Coordinate>,
    pub discovered_areas: Set<Coordinate>,
    pub heared: Map<Coordinate, Noise>,
    pub noise_emision: i32,
    pub light_emision: u32,
    pub action_cd: i32,
    pub items_letters: Set<char>,
    pub items_equipped: Map<Slot, (char, AnyItem)>,
    pub items_backpack: Seq<(char, AnyItem)>,
    pub was_attacked_by: Seq<AttackRecord>,
    pub did_attack: Seq<AttackRecord>,
}

/// The mathematical content of a list of attack records.
pub open spec fn records(v: Seq<AttackResult>) -> Seq<AttackRecord> {
    v.map_values(|r: AttackResult| r@)
}

impl View for Actor {
    type V = ActorView;

    open spec fn view(&self) -> ActorView {
        ActorView {
            hp: self.hp,
            mp: self.mp,
            sp: self.sp,
            saved_hp: self.saved_hp,
            saved_mp: self.saved_mp,
            saved_sp: self.saved_sp,
            player: self.player,
            pre_pos: self.pre_pos,
            pos: self.pos,
            acted: self.acted,
            descending: self.descending,
            race: self.race,
            base_stats: self.base_stats,
            mod_stats: self.mod_stats,
            stats: self.stats,
            in_los: self.in_los@,
            temporary_los: self.temporary_los@,
            visible: self.visible@,
            known: self.known@,
            known_areas: self.known_areas@,
            discovered: self.discovered@,
            discovered_areas: self.discovered_areas@,
            heared: self.heared@,
            noise_emision: self.noise_emision,
            light_emision: self.light_emision,
            action_cd: self.action_cd,
            items_letters: self.items_letters@.dom(),
            items_equipped: self.items_equipped@,
            items_backpack: self.items_backpack.entries(),
            was_attacked_by: records(self.was_attacked_by@),
            did_attack: records(self.did_attack@),
        }
    }
}

impl ActorView {
    /// The actor of `race` as it is created at `pos`.
    pub open spec fn fresh(race: Race, pos: Position) -> ActorView {
        let stats = Stats::of_race(race);
        ActorView {
            hp: stats.max_hp,
            mp: stats.max_mp,
            sp: stats.max_sp,
            saved_hp: stats.max_hp,
            saved_mp: stats.max_mp,
            saved_sp: stats.max_sp,
            player: false,
            pre_pos: None,
            pos,
            acted: false,
            descending: false,
            race,
            base_stats: stats,
            mod_stats: EffectiveStats::zero(),
            stats: EffectiveStats::zero(),
            in_los: Set::empty(),
            temporary_los: Set::empty(),
            visible: Set::empty(),
            known: Set::empty(),
            known_areas: Set::empty(),
            discovered: Set::empty(),
            discovered_areas: Set::empty(),
            heared: Map::empty(),
            noise_emision: 0,
            light_emision: 0,
            action_cd: 0,
            items_letters: Set::empty(),
            items_equipped: Map::empty(),
            items_backpack: Seq::empty(),
            was_attacked_by: Seq::empty(),
            did_attack: Seq::empty(),
        }
    }

    /// The cell in front of the actor.
    pub open spec fn head(self) -> Coordinate {
        self.pos.coord.shifted(self.pos.dir)
    }

    /// The stamina that one melee attack costs.
    pub open spec fn melee_sp_cost(self) -> int {
        larger(0, clip(self.stats.melee_str_req - self.stats.base.str_))
    }

    /// The stamina that a charge costs.
    pub open spec fn charge_sp_cost(self) -> int {
        larger(0, clip(CHARGE_STRENGTH - self.stats.base.str_))
    }

    /// Whether the stamina suffices for a melee attack.
    pub open spec fn can_attack_sp(self) -> bool {
        self.sp >= self.melee_sp_cost()
    }

    /// Whether the stamina suffices for a charge.
    pub open spec fn can_charge_sp(self) -> bool {
        self.sp >= self.charge_sp_cost()
    }

    /// Whether the actor is ready to attack.
    pub open spec fn can_attack(self) -> bool {
        self.action_cd == 0 && self.can_attack_sp()
    }

    /// Whether the hit points are used up.
    pub open spec fn is_dead(self) -> bool {
        self.hp <= 0
    }

    /// Whether the actor is alive and not held back by a cooldown.
    pub open spec fn can_perform_action(self) -> bool {
        !self.is_dead() && self.action_cd == 0
    }

    /// The positions that `action` tries to reach, in the order in which
    /// it tries them.
    pub open spec fn targets(self, action: Action) -> Seq<Position> {
        let pos = self.pos;
        match action {
            Action::Wait => seq![pos],
            Action::Pick => seq![pos],
            Action::Equip(_) => seq![pos],
            Action::Descend => seq![pos],
            Action::Fire(_) => seq![pos],
            Action::Turn(a) => seq![pos.turned(a)],
            Action::Move(a) => seq![pos.shifted(pos.dir.turned(a))],
            Action::Charge => if self.can_charge_sp() {
                seq![pos.shifted(pos.dir), pos.shifted(pos.dir).shifted(pos.dir)]
            } else {
                seq![pos.shifted(pos.dir)]
            },
            Action::Spin(a) => if a == Angle::Right {
                seq![pos.shifted(pos.dir.turned(a)).turned(Angle::Left)]
            } else if a == Angle::Left {
                seq![pos.shifted(pos.dir.turned(a)).turned(Angle::Right)]
            } else {
                seq![pos]
            },
        }
    }

    /// The actor after the bookkeeping that follows `action`: a wait gives
    /// one point of stamina back, up to the maximum; a charge costs its
    /// stamina; everything but a wait marks the actor as having acted.
    pub open spec fn after_action(self, action: Action) -> ActorView {
        match action {
            Action::Wait => ActorView {
                sp: smaller(self.stats.base.max_sp as int, clip(self.sp + 1)) as i32,
                ..self
            },
            Action::Charge => ActorView {
                sp: larger(0, clip(self.sp - self.charge_sp_cost())) as i32,
                acted: true,
                ..self
            },
            _ => ActorView { acted: true, ..self },
        }
    }

    /// The actor making a noise that reaches `noise` cells far: the radius
    /// of its noise grows to `noise`, and never shrinks.
    pub open spec fn with_noise(self, noise: i32) -> ActorView {
        ActorView { noise_emision: larger(self.noise_emision as int, noise as int) as i32, ..self }
    }

    /// The actor at the start of a tick: the position is remembered, and
    /// what the last tick recorded is cleared.
    pub open spec fn at_tick_start(self) -> ActorView {
        ActorView {
            pre_pos: Some(self.pos),
            did_attack: Seq::empty(),
            was_attacked_by: Seq::empty(),
            temporary_los: Set::empty(),
            discovered: Set::empty(),
            discovered_areas: Set::empty(),
            noise_emision: 0,
            heared: Map::empty(),
            ..self
        }
    }

    /// The actor with its vitals saved for later reference.
    pub open spec fn with_saved_stats(self) -> ActorView {
        ActorView { saved_hp: self.hp, saved_mp: self.mp, saved_sp: self.sp, ..self }
    }

    /// The actor at the start of its own turn: the cooldown is one
    /// shorter, the mark of having acted is cleared, and an actor that
    /// can act has its vitals saved.
    pub open spec fn at_turn_start(self) -> ActorView {
        let cooled = ActorView {
            action_cd: if self.action_cd > 0 {
                (self.action_cd - 1) as i32
            } else {
                self.action_cd
            },
            acted: false,
            ..self
        };
        if cooled.can_perform_action() {
            cooled.with_saved_stats()
        } else {
            cooled
        }
    }

    /// The attributes in effect: those of the race plus those of the
    /// equipment, and what strength, dexterity and intelligence add to
    /// the rest.
    pub open spec fn derived_stats(self) -> EffectiveStats {
        let s = self.base_stats.effective().sum(self.mod_stats);
        EffectiveStats {
            base: Stats {
                ac: clip(s.base.ac + half(s.base.str_ as int)) as i32,
                ev: clip(s.base.ev + half(s.base.dex as int)) as i32,
                max_sp: clip(s.base.max_sp + clip(2 * s.base.str_)) as i32,
                max_mp: clip(s.base.max_mp + clip(2 * s.base.int)) as i32,
                ..s.base
            },
            melee_dmg: clip(s.melee_dmg + s.base.str_) as i32,
            melee_acc: clip(s.melee_acc + s.base.dex) as i32,
            melee_str_req: s.melee_str_req,
        }
    }

    /// The actor with its attributes in effect computed anew.
    pub open spec fn with_derived_stats(self) -> ActorView {
        ActorView { stats: self.derived_stats(), ..self }
    }

    /// Whether an item of the backpack or of the equipment goes by the
    /// letter `ch`, or once did.
    pub open spec fn letter_taken(self, ch: char) -> bool {
        self.items_letters.contains(ch) || slot_with(self.items_equipped, ch, 0) < 7
    }

    /// Whether the letter `ch` can be given to a new item of the backpack.
    pub open spec fn letter_free(self, ch: char) -> bool {
        !self.letter_taken(ch) && !lettered(self.items_backpack).contains_key(ch)
    }

    /// The number of the first free letter from the number `from` on; the
    /// number of letters where none is free.
    pub open spec fn free_letter(self, from: int) -> int
        decreases LETTERS - from,
    {
        if from >= LETTERS {
            LETTERS as int
        } else if self.letter_free(letter(from)) {
            from
        } else {
            self.free_letter(from + 1)
        }
    }

    /// The actor with `item` in the backpack, under the first free letter;
    /// the actor unchanged where no letter is free.
    pub open spec fn with_item(self, item: AnyItem) -> ActorView {
        let n = self.free_letter(0);
        if n < LETTERS {
            ActorView {
                items_letters: self.items_letters.insert(letter(n)),
                items_backpack: put(self.items_backpack, letter(n), item),
                ..self
            }
        } else {
            self
        }
    }

    /// The actor with the slot `slot` emptied: what was in it goes back
    /// to the backpack under its letter, its attributes leave those of
    /// the equipment, and the cooldown grows by the time that taking it
    /// off costs.
    pub open spec fn without_slot(self, slot: Slot) -> ActorView {
        if self.items_equipped.contains_key(slot) {
            let (ch, item) = self.items_equipped[slot];
            ActorView {
                items_equipped: self.items_equipped.remove(slot),
                mod_stats: self.mod_stats.difference(item.bonus()),
                items_backpack: put(self.items_backpack, ch, item),
                action_cd: clip(self.action_cd + slot_cost(slot)) as i32,
                ..self
            }
        } else {
            self
        }
    }

    /// The actor with `item` equipped under the letter `ch`: the slot of
    /// the item is emptied first, then holds the item, whose attributes
    /// join those of the equipment, and the cooldown grows by the time
    /// that putting it on costs.  An item that fits no slot goes to the
    /// backpack under `ch`.
    pub open spec fn with_equipped(self, item: AnyItem, ch: char) -> ActorView {
        match item.fits() {
            Some(slot) => {
                let a = self.without_slot(slot);
                ActorView {
                    mod_stats: a.mod_stats.sum(item.bonus()),
                    items_equipped: a.items_equipped.insert(slot, (ch, item)),
                    action_cd: clip(a.action_cd + slot_cost(slot)) as i32,
                    ..a
                }
            },
            None => ActorView { items_backpack: put(self.items_backpack, ch, item), ..self },
        }
    }

    /// The actor with the first slot emptied whose item goes by the
    /// letter `ch`; the actor unchanged where no equipped item does.
    pub open spec fn without_letter(self, ch: char) -> ActorView {
        let n = slot_with(self.items_equipped, ch, 0);
        if n < 7 {
            self.without_slot(Slot::numbered(n))
        } else {
            self
        }
    }

    /// Whether using `item` has an effect on the actor: the item is a
    /// potion, and the actor is short of hit points.
    pub open spec fn can_use(self, item: AnyItem) -> bool {
        item is Potion && self.hp < self.stats.base.max_hp
    }

    /// The actor after using `item`: a potion gives hit points back, up to
    /// the maximum.
    pub open spec fn after_use(self, item: AnyItem) -> ActorView {
        if self.can_use(item) {
            ActorView {
                hp: smaller(self.stats.base.max_hp as int, clip(self.hp + item.heals())) as i32,
                ..self
            }
        } else {
            self
        }
    }

    /// The actor after the item with the letter `ch` was switched: an item
    /// of the backpack is used, if it is usable, and equipped, if it is
    /// not; the equipped item with that letter is taken off.  Using an
    /// item costs two ticks of cooldown; an item that had no effect stays
    /// in the backpack.
    pub open spec fn switched(self, ch: char) -> ActorView {
        if lettered(self.items_backpack).contains_key(ch) {
            let item = lettered(self.items_backpack)[ch];
            let a = ActorView { items_backpack: taken(self.items_backpack, ch), ..self };
            if item.usable() {
                let b = if a.can_use(item) {
                    a.after_use(item)
                } else {
                    ActorView { items_backpack: put(a.items_backpack, ch, item), ..a }
                };
                ActorView { action_cd: clip(b.action_cd + USE_COST) as i32, ..b }
            } else {
                a.with_equipped(item, ch)
            }
        } else {
            self.without_letter(ch)
        }
    }

    /// The accuracy of an attack of this actor in the direction `dir` on
    /// `target`: the actor's melee accuracy, doubled where the attack
    /// comes from the side or from behind, halved where the stamina does
    /// not suffice.
    pub open spec fn blow_acc(self, dir: Direction, target: ActorView) -> int {
        let full = if from_behind(dir, target.pos.dir) {
            clip(2 * self.stats.melee_acc)
        } else {
            self.stats.melee_acc as int
        };
        if self.can_attack_sp() {
            full
        } else {
            half(full)
        }
    }

    /// The damage of an attack of this actor in the direction `dir` on
    /// `target`, before the armour takes its share: the actor's melee
    /// damage, doubled and halved as the accuracy is.
    pub open spec fn blow_dmg(self, dir: Direction, target: ActorView) -> int {
        let full = if from_behind(dir, target.pos.dir) {
            clip(2 * self.stats.melee_dmg)
        } else {
            self.stats.melee_dmg as int
        };
        if self.can_attack_sp() {
            full
        } else {
            half(full)
        }
    }

    /// The damage of the attack that is left when the armour has taken
    /// `absorbed` of it.
    pub open spec fn blow_left(self, dir: Direction, target: ActorView, absorbed: int) -> int {
        larger(0, clip(self.blow_dmg(dir, target) - absorbed))
    }

    /// Whether the rolls of an attack of this actor in the direction `dir`
    /// on `target` can come out as `hit` and `absorbed`.
    pub open spec fn can_strike(
        self,
        dir: Direction,
        target: ActorView,
        hit: bool,
        absorbed: int,
    ) -> bool {
        &&& can_roll(self.blow_acc(dir, target), target.stats.base.ev as int, hit)
        &&& 0 <= absorbed <= larger(target.stats.base.ac as int, 0)
    }

    /// The attacker after its attack in the direction `dir` on `target`,
    /// when the rolls came out as `hit` and `absorbed`: the attack costs
    /// its stamina, or all that is left where that does not suffice, and
    /// is recorded.
    pub open spec fn after_attacking(
        self,
        dir: Direction,
        target: ActorView,
        hit: bool,
        absorbed: int,
    ) -> ActorView {
        ActorView {
            sp: if self.can_attack_sp() {
                clip(self.sp - self.melee_sp_cost()) as i32
            } else {
                0
            },
            did_attack: self.did_attack.push(
                AttackRecord {
                    success: hit,
                    dmg: self.blow_left(dir, target, absorbed) as i32,
                    who: target.race.name(),
                    behind: from_behind(dir, target.pos.dir),
                },
            ),
            ..self
        }
    }

    /// The target after the attack of `attacker` in the direction `dir`,
    /// when the rolls came out as `hit` and `absorbed`: a hit costs the
    /// damage left in hit points and makes a noise; hit or miss, the
    /// attack is recorded.
    pub open spec fn after_attacked(
        self,
        dir: Direction,
        attacker: ActorView,
        hit: bool,
        absorbed: int,
    ) -> ActorView {
        let left = attacker.blow_left(dir, self, absorbed);
        let hurt = if hit {
            ActorView { hp: clip(self.hp - left) as i32, ..self }.with_noise(HIT_NOISE)
        } else {
            self
        };
        ActorView {
            was_attacked_by: self.was_attacked_by.push(
                AttackRecord {
                    success: hit,
                    dmg: left as i32,
                    who: attacker.race.name(),
                    behind: from_behind(dir, self.pos.dir),
                },
            ),
            ..hurt
        }
    }

    /// Whether the cell `c` can be in the line of sight of the actor: it
    /// lies within the world, and no further from the actor than its
    /// vision reaches.
    pub open spec fn in_sight(self, c: Coordinate) -> bool {
        c.in_world() && self.pos.coord.steps_to(c) <= self.stats.base.vision
    }

    /// The cells of `sight` that can be in the line of sight of the actor.
    pub open spec fn sighted(self, sight: Set<Coordinate>) -> Set<Coordinate> {
        Set::new(|c: Coordinate| sight.contains(c) && self.in_sight(c))
    }

    /// The actor with the cells `sight` added to the line of sight that it
    /// gathers in this tick, as far as its vision reaches.
    pub open spec fn seeing(self, sight: Set<Coordinate>) -> ActorView {
        ActorView { temporary_los: self.temporary_los.union(self.sighted(sight)), ..self }
    }

    /// The actor after it has turned or stepped to `new_pos`, from where
    /// its line of sight is `sight`: the step makes a noise.
    pub open spec fn moved_to(self, new_pos: Position, sight: Set<Coordinate>) -> ActorView {
        ActorView { pos: new_pos, ..self }.seeing(sight).with_noise(STEP_NOISE)
    }

    /// The cells of the line of sight `los` that the actor sees from where
    /// it stands, by the light map `light` on the terrain `tiles`.
    pub open spec fn sees_of(
        self,
        light: Map<Coordinate, u32>,
        tiles: Map<Coordinate, Tile>,
        los: Set<Coordinate>,
    ) -> Set<Coordinate> {
        seen(
            light,
            tiles,
            self.pos.coord,
            self.head(),
            self.stats.base.infravision as int,
            los,
        )
    }

    /// The actor after it has taken in what it sees.  Its line of sight
    /// is `sight`, as far as its vision reaches.  What it sees now is what
    /// shows of that; that, and what shows of the line of sight gathered
    /// on the way, becomes known, and discovered where it was not known;
    /// the areas of the discovered cells become known likewise.
    pub open spec fn perceiving(
        self,
        light: Map<Coordinate, u32>,
        tiles: Map<Coordinate, Tile>,
        sight: Set<Coordinate>,
    ) -> ActorView {
        let los = self.sighted(sight);
        let earlier = self.sees_of(light, tiles, self.temporary_los);
        let now = self.sees_of(light, tiles, los);
        let discovered = self.discovered.union(earlier.union(now).difference(self.known));
        let found = centers(tiles, discovered);
        ActorView {
            temporary_los: los,
            in_los: los,
            visible: now,
            known: self.known.union(earlier).union(now),
            discovered,
            known_areas: self.known_areas.union(found),
            discovered_areas: self.discovered_areas.union(found.difference(self.known_areas)),
            ..self
        }
    }

    /// The actor at the end of its own turn: it takes in what it sees if
    /// it is not where it was at the start of the tick.
    pub open spec fn at_turn_end(
        self,
        light: Map<Coordinate, u32>,
        tiles: Map<Coordinate, Tile>,
        sight: Set<Coordinate>,
    ) -> ActorView {
        if self.pre_pos != Some(self.pos) {
            self.perceiving(light, tiles, sight)
        } else {
            self
        }
    }

    /// The actor on a new level: what it knew of the old one is gone.
    pub open spec fn on_new_level(self) -> ActorView {
        ActorView { known: Set::empty(), known_areas: Set::empty(), ..self }
    }
}

impl Actor {
    /// An actor of `race` at `pos`, in full health and with empty hands.
    pub fn new(race: Race, pos: Position) -> (a: Actor)
        ensures
            a@ == ActorView::fresh(race, pos),
    {
        let stats = Stats::new(race);
        let a = Actor {
            race,
            player: false,
            pos,
            pre_pos: None,
            base_stats: stats,
            mod_stats: EffectiveStats::default(),
            stats: EffectiveStats::default(),
            in_los: CoordSet::new(),
            temporary_los: CoordSet::new(),
            visible: CoordSet::new(),
            known: CoordSet::new(),
            known_areas: CoordSet::new(),
            heared: CoordMap::new(),
            noise_emision: 0,
            discovered: CoordSet::new(),
            discovered_areas: CoordSet::new(),
            light_emision: 0,
            items_backpack: LetterMap::new(),
            items_equipped: Equipment::new(),
            items_letters: LetterMap::new(),
            action_cd: 0,
            was_attacked_by: Vec::new(),
            did_attack: Vec::new(),
            hp: stats.max_hp,
            mp: stats.max_mp,
            sp: stats.max_sp,
            saved_hp: stats.max_hp,
            saved_mp: stats.max_mp,
            saved_sp: stats.max_sp,
            acted: false,
            descending: false,
        };
        proof {
            assert(a@.items_letters =~= Set::<char>::empty());
            assert(a@.was_attacked_by =~= Seq::<AttackRecord>::empty());
            assert(a@.did_attack =~= Seq::<AttackRecord>::empty());
        }
        a
    }

    /// Whether the actor sees the cell `pos` now.
    pub fn sees(&self, pos: Coordinate) -> (b: bool)
        ensures
            b == self@.visible.contains(pos),
    {
        self.visible.contains(pos)
    }

    /// Whether the cell `pos` is in the line of sight.
    pub fn in_los(&self, pos: Coordinate) -> (b: bool)
        ensures
            b == self@.in_los.contains(pos),
    {
        self.in_los.contains(pos)
    }

    /// Whether the actor has seen the cell `pos` on this level.
    pub fn knows(&self, pos: Coordinate) -> (b: bool)
        ensures
            b == self@.known.contains(pos),
    {
        self.known.contains(pos)
    }

    /// Whether the actor heard a noise from the cell `coord` in this tick.
    pub fn hears(&self, coord: Coordinate) -> (b: bool)
        ensures
            b == self@.heared.contains_key(coord),
    {
        self.heared.contains_key(coord)
    }

    /// The cell that the actor stands on.
    pub fn coord(&self) -> (c: Coordinate)
        ensures
            c == self@.pos.coord,
    {
        self.pos.coord
    }

    /// The cell in front of the actor.
    pub fn head(&self) -> (c: Coordinate)
        requires
            self@.pos.coord.in_reach(),
        ensures
            c == self@.head(),
    {
        self.pos.coord.neighbor(self.pos.dir)
    }

    /// The positions that `action` tries to reach, in the order in which
    /// it tries them.
    pub fn pos_after_action(&self, action: Action) -> (v: Vec<Position>)
        requires
            self@.pos.coord.in_world(),
        ensures
            v@ == self@.targets(action),
    {
        let pos = self.pos;
        let mut v: Vec<Position> = Vec::new();
        proof {
            crate::hex::lemma_world_within_reach(pos.coord, pos.dir, pos.dir);
        }
        match action {
            Action::Wait | Action::Pick | Action::Equip(_) | Action::Descend | Action::Fire(_) => {
                v.push(pos);
            },
            Action::Turn(a) => {
                v.push(pos.turn(a));
            },
            Action::Move(a) => {
                v.push(pos.step(pos.dir.turn(a)));
            },
            Action::Charge => {
                let first = pos.step(pos.dir);
                v.push(first);
                if self.can_charge_sp() {
                    v.push(first.step(pos.dir));
                }
            },
            Action::Spin(a) => {
                match a {
                    Angle::Right => {
                        v.push(pos.step(pos.dir.turn(a)).turn(Angle::Left));
                    },
                    Angle::Left => {
                        v.push(pos.step(pos.dir.turn(a)).turn(Angle::Right));
                    },
                    _ => {
                        v.push(pos);
                    },
                }
            },
        }
        assert(v@ =~= self@.targets(action));
        v
    }

    /// The bookkeeping that follows `action`: a wait gives one point of
    /// stamina back, up to the maximum; a charge costs its stamina;
    /// everything but a wait marks the actor as having acted.
    pub fn post_action(&mut self, action: Action)
        ensures
            final(self)@ == old(self)@.after_action(action),
    {
        match action {
            Action::Wait => {
                self.sp = at_most(self.stats.base.max_sp, plus(self.sp, 1));
            },
            Action::Charge => {
                self.sp = at_least(0, minus(self.sp, self.charge_sp_cost()));
                self.acted = true;
            },
            _ => {
                self.acted = true;
            },
        }
    }

    /// Whether the actor's last action was anything but a wait.
    pub fn acted_last_turn(&self) -> (b: bool)
        ensures
            b == self@.acted,
    {
        self.acted
    }

    /// Whether this actor could have seen what `actor` did in this tick:
    /// it sees the cell where `actor` is, or the one where it was at the
    /// start of the tick.
    pub fn could_have_seen(&self, actor: &Actor) -> (b: bool)
        requires
            actor@.pre_pos is Some,
        ensures
            b == (self@.visible.contains(actor@.pos.coord) || self@.visible.contains(
                actor@.pre_pos->0.coord,
            )),
    {
        self.sees(actor.pos.coord) || self.sees(actor.pre_pos.unwrap().coord)
    }

    /// Saves the vitals for later reference.
    pub fn save_stats(&mut self)
        ensures
            final(self)@ == old(self)@.with_saved_stats(),
    {
        self.saved_hp = self.hp;
        self.saved_mp = self.mp;
        self.saved_sp = self.sp;
    }

    /// Makes a noise that reaches `noise` cells far.
    pub fn noise_makes(&mut self, noise: i32)
        ensures
            final(self)@ == old(self)@.with_noise(noise),
    {
        if self.noise_emision < noise {
            self.noise_emision = noise;
        }
    }

    /// Hears a noise of the given kind from the cell `coord`.
    pub fn noise_hears(&mut self, coord: Coordinate, type_: Noise)
        ensures
            final(self)@ == (ActorView {
                heared: old(self)@.heared.insert(coord, type_),
                ..old(self)@
            }),
    {
        self.heared.insert(coord, type_);
    }

    /// The hook at the start of every tick.
    pub fn pre_any_tick(&mut self)
        ensures
            final(self)@ == old(self)@.at_tick_start(),
    {
        self.pre_pos = Some(self.pos);
        self.did_attack = Vec::new();
        self.was_attacked_by = Vec::new();
        self.temporary_los = CoordSet::new();
        self.discovered = CoordSet::new();
        self.discovered_areas = CoordSet::new();
        self.noise_emision = 0;
        self.heared = CoordMap::new();
        proof {
            assert(self@.was_attacked_by =~= Seq::<AttackRecord>::empty());
            assert(self@.did_attack =~= Seq::<AttackRecord>::empty());
        }
    }

    /// The hook at the start of the actor's own turn.
    pub fn pre_own_tick(&mut self)
        ensures
            final(self)@ == old(self)@.at_turn_start(),
    {
        if self.action_cd > 0 {
            self.action_cd -= 1;
        }
        self.acted = false;
        if self.can_perform_action() {
            self.save_stats();
        }
    }

    /// Computes the attributes in effect anew from those of the race and
    /// of the equipment.
    pub fn recalculate_stats(&mut self)
        ensures
            final(self)@ == old(self)@.with_derived_stats(),
    {
        let mut stats = self.base_stats.to_effective() + self.mod_stats;
        stats.melee_dmg = plus(stats.melee_dmg, stats.base.str_);
        stats.melee_acc = plus(stats.melee_acc, stats.base.dex);
        stats.base.ac = plus(stats.base.ac, halve(stats.base.str_));
        stats.base.ev = plus(stats.base.ev, halve(stats.base.dex));
        stats.base.max_sp = plus(stats.base.max_sp, twice(stats.base.str_));
        stats.base.max_mp = plus(stats.base.max_mp, twice(stats.base.int));
        self.stats = stats;
    }

    /// Puts `item` into the backpack, under the first letter that no item
    /// goes by.  Returns whether a letter was free.
    pub fn add_item(&mut self, item: AnyItem) -> (added: bool)
        ensures
            added == (old(self)@.free_letter(0) < LETTERS),
            final(self)@ == old(self)@.with_item(item),
    {
        let mut n: u8 = 0;
        while n < LETTERS
            invariant
                n <= LETTERS,
                *self == *old(self),
                old(self)@.free_letter(0) == old(self)@.free_letter(n as int),
            decreases LETTERS - n,
        {
            let ch = nth_letter(n);
            proof {
                self.items_backpack.lemma_view();
            }
            if !self.item_letter_taken(ch) && !self.items_backpack.contains_key(ch) {
                self.items_letters.insert(ch, ());
                self.items_backpack.insert(ch, item);
                proof {
                    assert(self@.items_letters =~= old(self)@.items_letters.insert(ch));
                }
                return true;
            }
            n += 1;
        }
        false
    }

    /// Whether an item of the backpack or of the equipment goes by the
    /// letter `ch`, or once did.
    pub fn item_letter_taken(&self, ch: char) -> (b: bool)
        ensures
            b == self@.letter_taken(ch),
    {
        self.items_letters.contains_key(ch) || self.items_equipped.slot_of(ch).is_some()
    }

    /// Uses `item`.  Returns whether it had an effect, and so is used up.
    pub fn use_item(&mut self, item: &AnyItem) -> (used: bool)
        ensures
            used == old(self)@.can_use(*item),
            final(self)@ == old(self)@.after_use(*item),
    {
        match item {
            AnyItem::Potion(p) => {
                if self.hp < self.stats.base.max_hp {
                    self.hp = at_most(self.stats.base.max_hp, plus(self.hp, p.heal));
                    true
                } else {
                    false
                }
            },
            _ => false,
        }
    }

    /// Switches the item with the letter `ch`: an item of the backpack is
    /// used, if it is usable, and equipped, if it is not; the equipped
    /// item with that letter is taken off.
    pub fn equip_switch(&mut self, ch: char)
        ensures
            final(self)@ == old(self)@.switched(ch),
    {
        proof {
            self.items_backpack.lemma_view();
        }
        match self.items_backpack.remove(ch) {
            Some(item) => {
                if item.is_usable() {
                    if !self.use_item(&item) {
                        self.items_backpack.insert(ch, item);
                    }
                    self.action_cd = plus(self.action_cd, USE_COST);
                } else {
                    self.equip(item, ch);
                }
            },
            None => {
                self.unequip(ch);
            },
        }
    }

    /// Equips `item` under the letter `ch`; an item that fits no slot goes
    /// to the backpack.
    pub fn equip(&mut self, item: AnyItem, ch: char)
        ensures
            final(self)@ == old(self)@.with_equipped(item, ch),
    {
        match item.slot() {
            Some(slot) => {
                self.unequip_slot(slot);
                self.mod_stats = self.mod_stats + item.stats();
                self.items_equipped.insert(slot, ch, item);
                self.action_cd = plus(self.action_cd, cost_of(slot));
            },
            None => {
                self.items_backpack.insert(ch, item);
            },
        }
    }

    /// Takes off what is in the slot `slot`, into the backpack.
    pub fn unequip_slot(&mut self, slot: Slot)
        ensures
            final(self)@ == old(self)@.without_slot(slot),
    {
        match self.items_equipped.remove(slot) {
            Some((ch, item)) => {
                self.mod_stats = self.mod_stats - item.stats();
                self.items_backpack.insert(ch, item);
                self.action_cd = plus(self.action_cd, cost_of(slot));
            },
            None => {
                assert(self.items_equipped@ =~= old(self).items_equipped@);
            },
        }
    }

    /// Takes off the equipped item that goes by the letter `ch`.
    pub fn unequip(&mut self, ch: char)
        ensures
            final(self)@ == old(self)@.without_letter(ch),
    {
        match self.items_equipped.slot_of(ch) {
            Some(slot) => {
                self.unequip_slot(slot);
            },
            None => {},
        }
    }

    /// Attacks `target` in the direction `dir`, with the rolls already
    /// made: `hit` tells whether the attack hits, `absorbed` what the
    /// armour takes of the damage.
    pub fn strikes(&mut self, dir: Direction, target: &mut Actor, hit: bool, absorbed: i32)
        ensures
            final(self)@ == old(self)@.after_attacking(dir, old(target)@, hit, absorbed as int),
            final(target)@ == old(target)@.after_attacked(dir, old(self)@, hit, absorbed as int),
    {
        let (acc, dmg, behind) = self.blow(dir, target);
        if !self.can_attack_sp() {
            self.sp = 0;
        } else {
            self.sp = minus(self.sp, self.melee_sp_cost());
        }
        let left = at_least(0, minus(dmg, absorbed));
        if hit {
            target.hp = minus(target.hp, left);
            target.noise_makes(HIT_NOISE);
        }
        let by = AttackResult { success: hit, dmg: left, who: self.description(), behind };
        let on = AttackResult { success: hit, dmg: left, who: target.description(), behind };
        proof {
            assert(records(target.was_attacked_by@.push(by)) =~= records(
                target.was_attacked_by@,
            ).push(by@));
            assert(records(self.did_attack@.push(on)) =~= records(self.did_attack@).push(on@));
        }
        target.was_attacked_by.push(by);
        self.did_attack.push(on);
    }

    /// The accuracy and the damage of an attack in the direction `dir` on
    /// `target`, and whether it comes from the side or from behind.
    pub fn blow(&self, dir: Direction, target: &Actor) -> (r: (i32, i32, bool))
        ensures
            r.0 == self@.blow_acc(dir, target@),
            r.1 == self@.blow_dmg(dir, target@),
            r.2 == from_behind(dir, target@.pos.dir),
    {
        let mut acc = self.stats.melee_acc;
        let mut dmg = self.stats.melee_dmg;
        let behind = match dir.angle_from(target.pos.dir) {
            Angle::Back => false,
            _ => true,
        };
        if behind {
            acc = twice(acc);
            dmg = twice(dmg);
        }
        if !self.can_attack_sp() {
            acc = halve(acc);
            dmg = halve(dmg);
        }
        (acc, dmg, behind)
    }

    /// Attacks `target` in the direction `dir`: rolls whether the attack
    /// hits and what the armour takes of it, and applies the result.
    pub fn attacks(&mut self, dir: Direction, target: &mut Actor)
        ensures
            exists|hit: bool, absorbed: int|
                {
                    &&& old(self)@.can_strike(dir, old(target)@, hit, absorbed)
                    &&& final(self)@ == old(self)@.after_attacking(dir, old(target)@, hit, absorbed)
                    &&& final(target)@ == old(target)@.after_attacked(
                        dir,
                        old(self)@,
                        hit,
                        absorbed,
                    )
                },
    {
        let (acc, _, _) = self.blow(dir, target);
        let hit = roll(acc, target.stats.base.ev);
        let absorbed = roll_armor(target.stats.base.ac);
        self.strikes(dir, target, hit, absorbed);
        proof {
            assert(old(self)@.can_strike(dir, old(target)@, hit, absorbed as int));
        }
    }

    /// Adds the cells `sight` to the line of sight gathered in this tick,
    /// as far as the vision reaches.
    pub fn see(&mut self, sight: &Vec<Coordinate>)
        requires
            old(self)@.pos.coord.in_world(),
        ensures
            final(self)@ == old(self)@.seeing(cells(sight@)),
    {
        let mut i: usize = 0;
        let here = self.pos.coord;
        let vision = self.stats.base.vision;
        proof {
            lemma_world_within_reach(here, self.pos.dir, self.pos.dir);
            lemma_cells_step(sight@.push(Coordinate { x: 0, y: 0 }), 0);
            assert(cells(sight@.take(0)) =~= Set::<Coordinate>::empty());
            assert(old(self)@.sighted(cells(sight@.take(0))) =~= Set::<Coordinate>::empty());
            assert(old(self)@.temporary_los.union(Set::<Coordinate>::empty())
                =~= old(self)@.temporary_los);
        }
        while i < sight.len()
            invariant
                i <= sight.len(),
                here == old(self)@.pos.coord,
                here.in_reach(),
                vision == old(self)@.stats.base.vision,
                self@ == old(self)@.seeing(cells(sight@.take(i as int))),
            decreases sight.len() - i,
        {
            let c = sight[i];
            let mut near = false;
            if c.is_in_world() {
                proof {
                    lemma_world_within_reach(c, self.pos.dir, self.pos.dir);
                }
                near = here.distance(c) <= vision;
            }
            if near {
                self.temporary_los.insert(c);
            }
            proof {
                lemma_cells_step(sight@, i as int);
                let done = old(self)@.sighted(cells(sight@.take(i as int)));
                let next = old(self)@.sighted(cells(sight@.take(i as int + 1)));
                assert(near == old(self)@.in_sight(c));
                assert(next =~= if near {
                    done.insert(c)
                } else {
                    done
                });
                assert(self@.temporary_los =~= old(self)@.temporary_los.union(next));
            }
            i += 1;
        }
        proof {
            assert(sight@.take(i as int) =~= sight@);
        }
    }

    /// The cells of the line of sight `los` that the actor sees from where
    /// it stands.
    pub fn los_to_visible(&self, loc: &Location, los: &CoordSet) -> (visible: CoordSet)
        requires
            self@.pos.coord.in_world(),
        ensures
            visible@ == self@.sees_of(loc@.light_map, loc@.map, los@),
    {
        let mut visible = CoordSet::new();
        let n = los.len();
        let ghost order = los.order();
        let ghost light = loc@.light_map;
        let ghost tiles = loc@.map;
        let here = self.pos.coord;
        proof {
            lemma_world_within_reach(here, self.pos.dir, self.pos.dir);
        }
        let head = self.head();
        let mut i: usize = 0;
        proof {
            assert(visible@ =~= self@.sees_of(light, tiles, cells(order.take(0))));
        }
        while i < n
            invariant
                i <= n,
                n == order.len(),
                order == los.order(),
                light == loc@.light_map,
                tiles == loc@.map,
                here == self@.pos.coord,
                here.in_world(),
                here.in_reach(),
                head == self@.head(),
                visible@ == self@.sees_of(light, tiles, cells(order.take(i as int))),
            decreases n - i,
        {
            let coord = los.nth(i);
            let ghost before = visible@;
            if coord.is_in_world() {
                proof {
                    lemma_world_within_reach(coord, self.pos.dir, self.pos.dir);
                }
                if loc.light(coord) > 0 {
                    visible.insert(coord);
                } else if here.distance(coord) <= self.stats.base.infravision {
                    visible.insert(coord);
                } else if coord.x == head.x && coord.y == head.y {
                    visible.insert(coord);
                } else if loc.tile(coord).opaqueness() > DIM_LIMIT {
                    if loc.light_as_seen_from(coord, here) > 0 {
                        visible.insert(coord);
                    }
                }
            }
            proof {
                lemma_cells_step(order, i as int);
                let shown = shows(
                    light,
                    tiles,
                    here,
                    head,
                    self@.stats.base.infravision as int,
                    coord,
                );
                assert(visible@ == if shown {
                    before.insert(coord)
                } else {
                    before
                });
                assert(visible@ =~= self@.sees_of(light, tiles, cells(order.take(i as int + 1))));
            }
            i += 1;
        }
        proof {
            lemma_cells_step(order.push(Coordinate { x: 0, y: 0 }), 0);
            assert(order.take(n as int) =~= order);
            assert(cells(order) =~= los@);
        }
        visible
    }

    /// Makes the cells `found` known, and discovered where they were not
    /// known.
    pub fn learn(&mut self, found: &CoordSet)
        ensures
            final(self)@ == (ActorView {
                known: old(self)@.known.union(found@),
                discovered: old(self)@.discovered.union(found@.difference(old(self)@.known)),
                ..old(self)@
            }),
    {
        let n = found.len();
        let ghost order = found.order();
        let mut i: usize = 0;
        proof {
            lemma_cells_step(order.push(Coordinate { x: 0, y: 0 }), 0);
            assert(cells(order.take(0)) =~= Set::<Coordinate>::empty());
            assert(old(self)@.known.union(cells(order.take(0))) =~= old(self)@.known);
            assert(old(self)@.discovered.union(cells(order.take(0)).difference(old(self)@.known))
                =~= old(self)@.discovered);
        }
        while i < n
            invariant
                i <= n,
                n == order.len(),
                order == found.order(),
                self@ == (ActorView {
                    known: old(self)@.known.union(cells(order.take(i as int))),
                    discovered: old(self)@.discovered.union(
                        cells(order.take(i as int)).difference(old(self)@.known),
                    ),
                    ..old(self)@
                }),
            decreases n - i,
        {
            let c = found.nth(i);
            if !self.known.contains(c) {
                self.known.insert(c);
                self.discovered.insert(c);
            }
            proof {
                lemma_cells_step(order, i as int);
                let done = cells(order.take(i as int));
                let next = cells(order.take(i as int + 1));
                assert(self@.known =~= old(self)@.known.union(next));
                assert(self@.discovered =~= old(self)@.discovered.union(
                    next.difference(old(self)@.known),
                ));
            }
            i += 1;
        }
        proof {
            assert(order.take(n as int) =~= order);
            assert(cells(order) =~= found@);
        }
    }

    /// Makes the areas of the discovered cells known, and discovered where
    /// they were not known.
    pub fn learn_areas(&mut self, loc: &Location)
        ensures
            final(self)@ == (ActorView {
                known_areas: old(self)@.known_areas.union(
                    centers(loc@.map, old(self)@.discovered),
                ),
                discovered_areas: old(self)@.discovered_areas.union(
                    centers(loc@.map, old(self)@.discovered).difference(old(self)@.known_areas),
                ),
                ..old(self)@
            }),
    {
        let n = self.discovered.len();
        let ghost order = self.discovered.order();
        let ghost tiles = loc@.map;
        let mut i: usize = 0;
        proof {
            lemma_cells_step(order.push(Coordinate { x: 0, y: 0 }), 0);
            let none = centers(tiles, cells(order.take(0)));
            assert(none =~= Set::<Coordinate>::empty());
            assert(old(self)@.known_areas.union(none) =~= old(self)@.known_areas);
            assert(old(self)@.discovered_areas.union(none.difference(old(self)@.known_areas))
                =~= old(self)@.discovered_areas);
        }
        while i < n
            invariant
                i <= n,
                n == order.len(),
                order == self.discovered.order(),
                tiles == loc@.map,
                self@ == (ActorView {
                    known_areas: old(self)@.known_areas.union(
                        centers(tiles, cells(order.take(i as int))),
                    ),
                    discovered_areas: old(self)@.discovered_areas.union(
                        centers(tiles, cells(order.take(i as int))).difference(
                            old(self)@.known_areas,
                        ),
                    ),
                    ..old(self)@
                }),
            decreases n - i,
        {
            let c = self.discovered.nth(i);
            let tile = loc.tile(c);
            let ghost done = centers(tiles, cells(order.take(i as int)));
            let ghost next = centers(tiles, cells(order.take(i as int + 1)));
            proof {
                lemma_cells_step(order, i as int);
                assert(next =~= match tile.area {
                    Some(a) => done.insert(a.center),
                    None => done,
                }) by {
                    assert forall|k: Coordinate| next.contains(k) <==> (match tile.area {
                        Some(a) => done.insert(a.center),
                        None => done,
                    }).contains(k) by {
                        if next.contains(k) {
                            let d = choose|d: Coordinate|
                                cells(order.take(i as int + 1)).contains(d) && #[trigger] tile_on(
                                    tiles,
                                    d,
                                ).area == Some(Area { center: k });
                            if d != c {
                                assert(cells(order.take(i as int)).contains(d));
                            }
                        }
                        if done.contains(k) {
                            let d = choose|d: Coordinate|
                                cells(order.take(i as int)).contains(d) && #[trigger] tile_on(
                                    tiles,
                                    d,
                                ).area == Some(Area { center: k });
                            assert(cells(order.take(i as int + 1)).contains(d));
                        }
                        if tile.area == Some(Area { center: k }) {
                            assert(cells(order.take(i as int + 1)).contains(c));
                            assert(tile_on(tiles, c).area == Some(Area { center: k }));
                        }
                    }
                }
            }
            match tile.area {
                Some(area) => {
                    if !self.known_areas.contains(area.center) {
                        self.known_areas.insert(area.center);
                        self.discovered_areas.insert(area.center);
                    }
                },
                None => {},
            }
            proof {
                assert(self@.known_areas =~= old(self)@.known_areas.union(next));
                assert(self@.discovered_areas =~= old(self)@.discovered_areas.union(
                    next.difference(old(self)@.known_areas),
                ));
            }
            i += 1;
        }
        proof {
            assert(order.take(n as int) =~= order);
            assert(cells(order) =~= old(self)@.discovered);
        }
    }

    /// Takes in what the actor sees from where it stands, where `sight` is
    /// its line of sight from there.
    pub fn postprocess_visibile(&mut self, loc: &Location, sight: &Vec<Coordinate>)
        requires
            old(self)@.pos.coord.in_world(),
        ensures
            final(self)@ == old(self)@.perceiving(loc@.light_map, loc@.map, cells(sight@)),
    {
        let earlier = self.los_to_visible(loc, &self.temporary_los);
        self.temporary_los = CoordSet::new();
        self.see(sight);
        proof {
            assert(self@.temporary_los =~= old(self)@.sighted(cells(sight@)));
        }
        let visible = self.los_to_visible(loc, &self.temporary_los);
        self.learn(&earlier);
        self.learn(&visible);
        self.learn_areas(loc);
        self.in_los = self.temporary_los.duplicate();
        self.visible = visible;
        proof {
            let want = old(self)@.perceiving(loc@.light_map, loc@.map, cells(sight@));
            assert(self@.known =~= want.known);
            assert(self@.discovered =~= want.discovered);
            assert(self@.known_areas =~= want.known_areas);
            assert(self@.discovered_areas =~= want.discovered_areas);
        }
    }

    /// The hook at the end of the actor's own turn, where `sight` is the
    /// line of sight from where the actor stands.
    pub fn post_own_tick(&mut self, loc: &Location, sight: &Vec<Coordinate>)
        requires
            old(self)@.pos.coord.in_world(),
        ensures
            final(self)@ == old(self)@.at_turn_end(loc@.light_map, loc@.map, cells(sight@)),
    {
        let unmoved = match self.pre_pos {
            Some(p) => p == self.pos,
            None => false,
        };
        if !unmoved {
            self.postprocess_visibile(loc, sight);
        }
    }

    /// The hook at the end of every tick.
    pub fn post_any_tick(&mut self)
        ensures
            final(self)@ == old(self)@.with_derived_stats(),
    {
        self.recalculate_stats();
    }

    /// Turns or steps to `new_pos`, from where the line of sight is
    /// `sight`.
    pub fn moved(&mut self, new_pos: Position, sight: &Vec<Coordinate>)
        requires
            new_pos.coord.in_world(),
        ensures
            final(self)@ == old(self)@.moved_to(new_pos, cells(sight@)),
    {
        self.pos = new_pos;
        self.see(sight);
        self.noise_makes(STEP_NOISE);
    }

    /// Whether one of the cells discovered in this tick holds stairs.
    pub fn discovered_stairs(&self, loc: &Location) -> (b: bool)
        ensures
            b == stairs_among(loc@.map, self@.discovered),
    {
        let n = self.discovered.len();
        let ghost order = self.discovered.order();
        let mut i: usize = 0;
        while i < n
            invariant
                i <= n,
                n == order.len(),
                order == self.discovered.order(),
                CoordSet::lists(order, self@.discovered),
                forall|j: int| 0 <= j < i ==> tile_on(loc@.map, #[trigger] order[j]).kind != Kind::Stairs,
            decreases n - i,
        {
            let c = self.discovered.nth(i);
            if loc.tile(c).is_stairs() {
                return true;
            }
            i += 1;
        }
        proof {
            if stairs_among(loc@.map, self@.discovered) {
                let c = choose|c: Coordinate|
                    self@.discovered.contains(c) && #[trigger] tile_on(loc@.map, c).kind
                        == Kind::Stairs;
                assert(order.contains(c));
                let j = choose|j: int| 0 <= j < order.len() && order[j] == c;
                assert(tile_on(loc@.map, order[j]).kind != Kind::Stairs);
            }
        }
        false
    }

    /// Marks the actor as the one that the player controls.
    pub fn set_player(&mut self)
        ensures
            final(self)@ == (ActorView { player: true, ..old(self)@ }),
    {
        self.player = true;
    }

    /// The stamina that one melee attack costs.
    pub fn melee_sp_cost(&self) -> (c: i32)
        ensures
            c == self@.melee_sp_cost(),
    {
        at_least(0, minus(self.stats.melee_str_req, self.stats.base.str_))
    }

    /// The stamina that a charge costs.
    pub fn charge_sp_cost(&self) -> (c: i32)
        ensures
            c == self@.charge_sp_cost(),
    {
        at_least(0, minus(CHARGE_STRENGTH, self.stats.base.str_))
    }

    /// Whether the stamina suffices for a melee attack.
    pub fn can_attack_sp(&self) -> (b: bool)
        ensures
            b == self@.can_attack_sp(),
    {
        self.sp >= self.melee_sp_cost()
    }

    /// Whether the stamina suffices for a charge.
    pub fn can_charge_sp(&self) -> (b: bool)
        ensures
            b == self@.can_charge_sp(),
    {
        self.sp >= self.charge_sp_cost()
    }

    /// Whether the actor is ready to attack.
    pub fn can_attack(&self) -> (b: bool)
        ensures
            b == self@.can_attack(),
    {
        self.action_cd == 0 && self.can_attack_sp()
    }

    /// Whether no cooldown holds the actor back.
    pub fn can_act(&self) -> (b: bool)
        ensures
            b == (self@.action_cd == 0),
    {
        self.action_cd == 0
    }

    /// Resets what the actor knew, for a new level.
    pub fn changed_level(&mut self)
        ensures
            final(self)@ == old(self)@.on_new_level(),
    {
        self.known = CoordSet::new();
        self.known_areas = CoordSet::new();
    }

    /// Takes the stairs down: the actor waits to be moved to the next
    /// level.
    pub fn descend(&mut self)
        ensures
            final(self)@ == (ActorView { descending: true, ..old(self)@ }),
    {
        self.descending = true;
    }

    /// Whether the player controls this actor.
    pub fn is_player(&self) -> (b: bool)
        ensures
            b == self@.player,
    {
        self.player
    }

    /// Whether the hit points are used up.
    pub fn is_dead(&self) -> (b: bool)
        ensures
            b == self@.is_dead(),
    {
        self.hp <= 0
    }

    /// Whether the actor is alive and not held back by a cooldown.
    pub fn can_perform_action(&self) -> (b: bool)
        ensures
            b == self@.can_perform_action(),
    {
        !self.is_dead() && self.action_cd == 0
    }

    /// The name of the actor's race.
    pub fn description(&self) -> (s: String)
        ensures
            s@ == self@.race.name(),
    {
        self.race.description()
    }
}

} // verus!
