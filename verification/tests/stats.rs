use hexdungeon::arith::at_least;
use hexdungeon::arith::at_most;
use hexdungeon::arith::halve;
use hexdungeon::arith::minus;
use hexdungeon::arith::plus;
use hexdungeon::arith::twice;
use hexdungeon::dice::absorb;
use hexdungeon::dice::decide;
use hexdungeon::dice::roll;
use hexdungeon::dice::roll_armor;
use hexdungeon::item::AnyItem;
use hexdungeon::item::Armor;
use hexdungeon::item::Item;
use hexdungeon::item::Potion;
use hexdungeon::item::Type;
use hexdungeon::item::Weapon;
use hexdungeon::stats::EffectiveStats;
use hexdungeon::stats::Race;
use hexdungeon::stats::Slot;
use hexdungeon::stats::Stats;

#[test]
fn race_names() {
    assert_eq!(Race::Human.description(), "Human");
    assert_eq!(Race::Elf.description(), "Elf");
    assert_eq!(Race::Dwarf.description(), "Dwarf");
    assert_eq!(Race::Rat.description(), "Rat");
    assert_eq!(Race::Goblin.description(), "Goblin");
}

#[test]
fn effective_stats_start_without_combat_numbers() {
    let s = Stats::new(Race::Dwarf);
    let e = s.to_effective();
    assert_eq!(e.base, s);
    assert_eq!(e.melee_dmg, 0);
    assert_eq!(e.melee_acc, 0);
    assert_eq!(e.melee_str_req, 0);
}

#[test]
fn stats_of_the_races() {
    let h = Stats::new(Race::Human);
    assert_eq!((h.str_, h.max_hp, h.vision, h.infravision), (3, 20, 10, 0));
    let g = Stats::new(Race::Goblin);
    assert_eq!((g.str_, g.max_hp, g.vision, g.infravision), (2, 10, 8, 4));
    assert_eq!(Stats::default().max_hp, 0);
    assert_eq!(EffectiveStats::default().melee_dmg, 0);
}

#[test]
fn stats_add_and_subtract_entry_by_entry() {
    let a = Stats::new(Race::Human);
    let b = Stats::new(Race::Elf);
    let s = a + b;
    assert_eq!((s.int, s.dex, s.str_), (7, 7, 5));
    assert_eq!((s.max_hp, s.max_mp, s.max_sp), (35, 25, 20));
    assert_eq!((s.ac, s.ev, s.infravision, s.vision), (0, 3, 2, 22));
    assert_eq!(s - b, a);
    let e = EffectiveStats { base: a, melee_dmg: 2, melee_acc: 3, melee_str_req: 4 };
    let f = EffectiveStats { base: b, melee_dmg: 10, melee_acc: 20, melee_str_req: 30 };
    let g = e + f;
    assert_eq!((g.melee_dmg, g.melee_acc, g.melee_str_req), (12, 23, 34));
    assert_eq!(g.base, s);
    assert_eq!(g - f, e);
}

#[test]
fn sums_stop_at_the_limits() {
    assert_eq!(plus(i32::MAX, 1), i32::MAX);
    assert_eq!(plus(i32::MIN, -1), i32::MIN);
    assert_eq!(plus(5, -7), -2);
    assert_eq!(minus(i32::MIN, 1), i32::MIN);
    assert_eq!(minus(i32::MAX, -1), i32::MAX);
    assert_eq!(minus(0, i32::MIN), i32::MAX);
    assert_eq!(minus(3, 5), -2);
    assert_eq!(twice(21), 42);
    assert_eq!(twice(i32::MAX), i32::MAX);
    assert_eq!(twice(i32::MIN), i32::MIN);
    assert_eq!(halve(7), 3);
    assert_eq!(halve(-7), -3);
    assert_eq!(at_least(3, 9), 9);
    assert_eq!(at_most(3, 9), 3);
    let mut big = Stats::default();
    big.max_hp = i32::MAX;
    let mut one = Stats::default();
    one.max_hp = 1;
    assert_eq!((big + one).max_hp, i32::MAX);
}

#[test]
fn items_tell_about_themselves() {
    let sword = Weapon::new();
    assert_eq!(sword.base_dmg, 1);
    assert_eq!(sword.description(), "sword");
    assert_eq!(sword.type_(), Type::Weapon);
    assert_eq!(sword.slot(), Some(Slot::RHand));
    assert_eq!(sword.stats().melee_dmg, 1);
    assert!(!sword.is_usable());
    let mail = Armor { ac: 4 };
    assert_eq!(mail.description(), "armor");
    assert_eq!(mail.type_(), Type::Armor);
    assert_eq!(mail.slot(), Some(Slot::Body));
    assert_eq!(mail.stats().base.ac, 4);
    assert_eq!(mail.stats().melee_dmg, 0);
    let potion = Potion { heal: 5 };
    assert_eq!(potion.description(), "potion");
    assert_eq!(potion.type_(), Type::Potion);
    assert_eq!(potion.slot(), None);
    assert!(potion.is_usable());
    assert_eq!(AnyItem::Potion(potion).healing(), 5);
    assert_eq!(AnyItem::Weapon(sword).healing(), 0);
    assert_eq!(AnyItem::Armor(mail).slot(), Some(Slot::Body));
    assert_eq!(AnyItem::Weapon(sword).description(), "sword");
    assert_eq!(AnyItem::Potion(potion).type_(), Type::Potion);
    assert!(AnyItem::Potion(potion).is_usable());
    assert_eq!(AnyItem::Weapon(Weapon { base_dmg: 7 }).stats().melee_dmg, 7);
}

#[test]
fn a_draw_below_the_accuracy_hits() {
    assert!(decide(10, 9));
    assert!(!decide(10, 10));
    assert!(!decide(0, 0));
    assert_eq!(absorb(2, 5), 5);
    assert_eq!(absorb(5, 2), 5);
}

#[test]
fn rolls_stay_within_their_bounds() {
    let mut hits = 0;
    for _ in 0..400 {
        assert!(!roll(0, 5));
        assert!(!roll(-3, 5));
        assert!(!roll(0, 0));
        assert!(roll(5, 0));
        assert!(roll(5, -2));
        if roll(5, 5) {
            hits += 1;
        }
        assert_eq!(roll_armor(0), 0);
        assert_eq!(roll_armor(-4), 0);
        let a = roll_armor(3);
        assert!((0..=3).contains(&a));
    }
    assert!(hits > 100 && hits < 300);
}
