use hexdungeon::coordmap::CoordMap;
use hexdungeon::coordmap::CoordSet;
use hexdungeon::hex::Coordinate;
use hexdungeon::inventory::Equipment;
use hexdungeon::inventory::LetterMap;
use hexdungeon::item::AnyItem;
use hexdungeon::item::Armor;
use hexdungeon::item::Weapon;
use hexdungeon::stats::Slot;

#[test]
fn coord_map_keeps_values_and_order() {
    let mut m: CoordMap<u32> = CoordMap::new();
    assert_eq!(m.len(), 0);
    let a = Coordinate::new(1, 2);
    let b = Coordinate::new(2, 1);
    let c = Coordinate::new(-2_000_000_000, 2_000_000_000);
    let d = Coordinate::new(i32::MIN, i32::MAX);
    m.insert(a, 10);
    m.insert(b, 20);
    m.insert(c, 30);
    m.insert(d, 40);
    m.insert(a, 11);
    assert_eq!(m.len(), 4);
    assert_eq!(m.get(a), Some(&11));
    assert_eq!(m.get(b), Some(&20));
    assert_eq!(m.get(c), Some(&30));
    assert_eq!(m.get(d), Some(&40));
    assert_eq!(m.get(Coordinate::new(2, 2)), None);
    assert_eq!(m.get(Coordinate::new(i32::MAX, i32::MIN)), None);
    assert!(m.contains_key(b));
    assert_eq!((m.key_at(0), m.key_at(1), m.key_at(2), m.key_at(3)), (a, b, c, d));
    assert_eq!(m.remove(b), Some(20));
    assert_eq!(m.remove(b), None);
    assert!(!m.contains_key(b));
    assert_eq!(m.len(), 3);
    assert_eq!((m.key_at(0), m.key_at(1), m.key_at(2)), (a, c, d));
    m.insert(b, 21);
    assert_eq!(m.key_at(3), b);
}

#[test]
fn coord_set_keeps_members_once() {
    let mut s = CoordSet::new();
    let a = Coordinate::new(0, 0);
    let b = Coordinate::new(0, 1);
    assert!(s.insert(a));
    assert!(s.insert(b));
    assert!(!s.insert(a));
    assert_eq!(s.len(), 2);
    assert!(s.contains(a));
    assert!(!s.contains(Coordinate::new(1, 0)));
    assert_eq!((s.nth(0), s.nth(1)), (a, b));
    let t = s.duplicate();
    assert_eq!(t.len(), 2);
    assert_eq!((t.nth(0), t.nth(1)), (a, b));
    s.insert(Coordinate::new(5, 5));
    assert_eq!(t.len(), 2);
    assert_eq!(s.len(), 3);
}

#[test]
fn letter_map_keeps_values_and_order() {
    let mut m: LetterMap<u8> = LetterMap::new();
    m.insert('b', 2);
    m.insert('a', 1);
    m.insert('c', 3);
    m.insert('a', 9);
    assert_eq!(m.len(), 3);
    assert_eq!(m.get('a'), Some(&9));
    assert_eq!(m.get('z'), None);
    assert_eq!((m.letter_at(0), m.letter_at(1), m.letter_at(2)), ('b', 'a', 'c'));
    assert_eq!(*m.value_at(1), 9);
    assert_eq!(m.remove('b'), Some(2));
    assert_eq!(m.remove('b'), None);
    assert_eq!((m.letter_at(0), m.letter_at(1)), ('a', 'c'));
    assert!(m.contains_key('c'));
    assert!(!m.contains_key('b'));
}

#[test]
fn equipment_has_one_item_per_slot() {
    let mut e = Equipment::new();
    let sword = AnyItem::Weapon(Weapon::new());
    let mail = AnyItem::Armor(Armor { ac: 3 });
    assert_eq!(e.get(Slot::RHand), None);
    e.insert(Slot::RHand, 'a', sword);
    e.insert(Slot::Body, 'b', mail);
    assert_eq!(e.get(Slot::RHand), Some(('a', sword)));
    assert_eq!(e.get(Slot::Body), Some(('b', mail)));
    assert_eq!(e.get(Slot::Head), None);
    assert_eq!(e.slot_of('b'), Some(Slot::Body));
    assert_eq!(e.slot_of('a'), Some(Slot::RHand));
    assert_eq!(e.slot_of('c'), None);
    e.insert(Slot::Head, 'b', mail);
    assert_eq!(e.slot_of('b'), Some(Slot::Head));
    assert_eq!(e.remove(Slot::RHand), Some(('a', sword)));
    assert_eq!(e.remove(Slot::RHand), None);
    assert_eq!(e.slot_of('a'), None);
    for (n, s) in [
        Slot::Head,
        Slot::Feet,
        Slot::LHand,
        Slot::RHand,
        Slot::Body,
        Slot::Cloak,
        Slot::Quick,
    ]
    .iter()
    .enumerate()
    {
        assert_eq!(s.index(), n);
        assert_eq!(Slot::from_index(n), *s);
    }
}
