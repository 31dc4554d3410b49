use hexdungeon::action::Action;
use hexdungeon::actor::Actor;
use hexdungeon::coordmap::CoordMap;
use hexdungeon::hex::Angle;
use hexdungeon::hex::Coordinate;
use hexdungeon::hex::Direction;
use hexdungeon::hex::Position;
use hexdungeon::item::AnyItem;
use hexdungeon::item::Weapon;
use hexdungeon::location::Location;
use hexdungeon::stats::Race;
use hexdungeon::tile::Kind;
use hexdungeon::tile::Tile;
use hexdungeon::tile::TileMap;

fn open_field(radius: i32) -> TileMap {
    let mut map = TileMap::new();
    for x in -radius..=radius {
        for y in -radius..=radius {
            if (x + y).abs() <= radius {
                map.set(Coordinate::new(x, y), Tile::new(Kind::Empty));
            }
        }
    }
    map
}

fn cells_ahead(from: Coordinate, dir: Direction, count: i32) -> Vec<Coordinate> {
    let mut v = Vec::new();
    let mut c = from;
    for _ in 0..count {
        c = c.neighbor(dir);
        v.push(c);
    }
    v
}

#[test]
fn unlit_field_shows_only_the_cell_ahead() {
    for dir in Direction::all() {
        let mut loc = Location::new(open_field(8), CoordMap::new());
        let origin = Coordinate::new(0, 0);
        let mut actor = Actor::new(Race::Human, Position::new(origin, dir));
        actor.base_stats.vision = 5;
        actor.base_stats.infravision = 0;
        let sight = cells_ahead(origin, dir, 5);
        let id = loc.spawn(actor, &sight);
        let seen = &loc.actors_byid[&id];
        assert_eq!(seen.visible.len(), 1);
        assert!(seen.sees(origin.neighbor(dir)));
        assert!(seen.knows(origin.neighbor(dir)));
        assert_eq!(seen.known.len(), 1);
        assert_eq!(seen.in_los.len(), 5);
        assert!(!seen.sees(origin.neighbor(dir).neighbor(dir)));
    }
}

#[test]
fn lit_cells_of_the_line_of_sight_are_visible() {
    let origin = Coordinate::new(0, 0);
    let dir = Direction::XY;
    let far = origin.neighbor(dir).neighbor(dir).neighbor(dir);
    let mut map = open_field(8);
    map.set(far, Tile { kind: Kind::Empty, light: 2, area: None });
    let mut loc = Location::new(map, CoordMap::new());
    assert_eq!(loc.light_sources(), vec![(far, 2)]);
    loc.recalculate_light_map(&vec![vec![(far, 2)]]);
    let actor = Actor::new(Race::Human, Position::new(origin, dir));
    let id = loc.spawn(actor, &cells_ahead(origin, dir, 5));
    let seen = &loc.actors_byid[&id];
    assert_eq!(seen.visible.len(), 2);
    assert!(seen.sees(far));
    assert!(seen.sees(origin.neighbor(dir)));
}

fn fighter(at: Coordinate, dir: Direction) -> Actor {
    let mut a = Actor::new(Race::Human, Position::new(at, dir));
    a.stats.melee_acc = 10;
    a.stats.melee_dmg = 5;
    a.stats.base.str_ = 3;
    a
}

fn dummy(at: Coordinate, dir: Direction) -> Actor {
    let mut a = Actor::new(Race::Human, Position::new(at, dir));
    a.stats.base.ac = 0;
    a.stats.base.ev = 0;
    a.hp = 100;
    a
}

#[test]
fn frontal_attack_is_not_doubled() {
    let origin = Coordinate::new(0, 0);
    let attacker = fighter(origin, Direction::XY);
    // The target looks at the attacker: the attack goes against its heading.
    let target = dummy(origin.neighbor(Direction::XY), Direction::YX);
    assert_eq!(Direction::XY.angle_from(Direction::YX), Angle::Back);
    assert_eq!(attacker.blow(Direction::XY, &target), (10, 5, false));
}

#[test]
fn attack_from_the_side_or_behind_is_doubled() {
    let origin = Coordinate::new(0, 0);
    let attacker = fighter(origin, Direction::XY);
    for angle in [Angle::Forward, Angle::Left, Angle::Right] {
        let facing = Direction::XY.turn(Angle::Back).turn(Angle::Back);
        assert_eq!(facing, Direction::XY);
        // A target whose heading is `dir - angle` is attacked at `angle`.
        let mut heading = Direction::XY;
        for d in Direction::all() {
            if Direction::XY.angle_from(d) == angle {
                heading = d;
            }
        }
        let target = dummy(origin.neighbor(Direction::XY), heading);
        assert_eq!(attacker.blow(Direction::XY, &target), (20, 10, true));
    }
    for angle in [Angle::LeftBack, Angle::RightBack] {
        let mut heading = Direction::XY;
        for d in Direction::all() {
            if Direction::XY.angle_from(d) == angle {
                heading = d;
            }
        }
        assert_eq!(Direction::XY.angle_from(heading), angle);
        let target = dummy(origin.neighbor(Direction::XY), heading);
        assert_eq!(attacker.blow(Direction::XY, &target), (20, 10, true));
    }
    // Only the attack straight against the heading is plain.
    let target = dummy(origin.neighbor(Direction::XY), Direction::YX);
    assert_eq!(Direction::XY.angle_from(Direction::YX), Angle::Back);
    assert_eq!(attacker.blow(Direction::XY, &target), (10, 5, false));
}

#[test]
fn an_attack_from_the_rear_flank_is_recorded_as_doubled() {
    let origin = Coordinate::new(0, 0);
    for angle in [Angle::LeftBack, Angle::RightBack] {
        let mut attacker = fighter(origin, Direction::XY);
        attacker.sp = 0;
        let heading = Direction::XY;
        let dir = heading.turn(angle);
        let mut target = dummy(origin.neighbor(dir), heading);
        assert_eq!(dir.angle_from(heading), angle);
        attacker.attacks(dir, &mut target);
        assert_eq!(attacker.did_attack.len(), 1);
        assert_eq!(attacker.did_attack[0].dmg, 10);
        assert!(attacker.did_attack[0].behind);
        assert!(attacker.did_attack[0].success);
        assert_eq!(target.hp, 90);
        assert!(target.was_attacked_by[0].behind);
    }
}

#[test]
fn fixed_rolls_give_exact_damage() {
    let origin = Coordinate::new(0, 0);
    let mut attacker = fighter(origin, Direction::XY);
    let mut front = dummy(origin.neighbor(Direction::XY), Direction::YX);
    attacker.strikes(Direction::XY, &mut front, true, 0);
    assert_eq!(front.hp, 95);
    assert_eq!(front.noise_emision, 7);
    assert_eq!(front.was_attacked_by.len(), 1);
    assert_eq!(front.was_attacked_by[0].dmg, 5);
    assert!(front.was_attacked_by[0].success);
    assert!(!front.was_attacked_by[0].behind);
    assert_eq!(front.was_attacked_by[0].who, "Human");
    assert_eq!(attacker.did_attack.len(), 1);
    assert_eq!(attacker.did_attack[0].dmg, 5);

    let mut back = dummy(origin.neighbor(Direction::XY), Direction::XY);
    attacker.strikes(Direction::XY, &mut back, true, 3);
    assert_eq!(back.hp, 93);
    assert_eq!(back.was_attacked_by[0].dmg, 7);
    assert!(back.was_attacked_by[0].behind);

    let mut missed = dummy(origin.neighbor(Direction::XY), Direction::XY);
    attacker.strikes(Direction::XY, &mut missed, false, 0);
    assert_eq!(missed.hp, 100);
    assert_eq!(missed.noise_emision, 0);
    assert_eq!(missed.was_attacked_by[0].dmg, 10);
    assert!(!missed.was_attacked_by[0].success);

    let mut armoured = dummy(origin.neighbor(Direction::XY), Direction::YX);
    attacker.strikes(Direction::XY, &mut armoured, true, 9);
    assert_eq!(armoured.hp, 100);
    assert_eq!(armoured.was_attacked_by[0].dmg, 0);
}

#[test]
fn rolled_attack_on_target_without_evasion_and_armour_always_hits_in_full() {
    let origin = Coordinate::new(0, 0);
    for _ in 0..50 {
        let mut attacker = fighter(origin, Direction::XY);
        let mut front = dummy(origin.neighbor(Direction::XY), Direction::YX);
        attacker.attacks(Direction::XY, &mut front);
        assert_eq!(front.hp, 95);
        let mut back = dummy(origin.neighbor(Direction::XY), Direction::XY);
        attacker.attacks(Direction::XY, &mut back);
        assert_eq!(back.hp, 90);
    }
}

#[test]
fn rolled_attack_without_accuracy_never_hits() {
    let origin = Coordinate::new(0, 0);
    for _ in 0..50 {
        let mut attacker = fighter(origin, Direction::XY);
        attacker.stats.melee_acc = 0;
        let mut target = dummy(origin.neighbor(Direction::XY), Direction::YX);
        target.stats.base.ev = 5;
        attacker.attacks(Direction::XY, &mut target);
        assert_eq!(target.hp, 100);
    }
}

#[test]
fn armour_takes_no_more_than_its_class() {
    let origin = Coordinate::new(0, 0);
    for _ in 0..200 {
        let mut attacker = fighter(origin, Direction::XY);
        let mut target = dummy(origin.neighbor(Direction::XY), Direction::YX);
        target.stats.base.ac = 3;
        attacker.attacks(Direction::XY, &mut target);
        assert!(target.hp >= 95 && target.hp <= 98);
    }
}

#[test]
fn tired_attacker_hits_half_as_hard() {
    let origin = Coordinate::new(0, 0);
    let mut attacker = fighter(origin, Direction::XY);
    attacker.stats.melee_str_req = 8;
    attacker.sp = 4;
    let target = dummy(origin.neighbor(Direction::XY), Direction::YX);
    assert_eq!(attacker.melee_sp_cost(), 5);
    assert!(!attacker.can_attack_sp());
    assert_eq!(attacker.blow(Direction::XY, &target), (5, 2, false));
    let mut target = target;
    attacker.strikes(Direction::XY, &mut target, true, 0);
    assert_eq!(attacker.sp, 0);
    assert_eq!(target.hp, 98);
}

fn two_actors() -> (Location, u32, u32) {
    let mut loc = Location::new(open_field(8), CoordMap::new());
    let origin = Coordinate::new(0, 0);
    let attacker = Actor::new(Race::Dwarf, Position::new(origin, Direction::XY));
    let victim = Actor::new(Race::Rat, Position::new(origin.neighbor(Direction::XY), Direction::YX));
    let a = loc.spawn(attacker, &vec![]);
    let v = loc.spawn(victim, &vec![]);
    (loc, a, v)
}

#[test]
fn killed_actor_is_swept_at_the_end_of_the_tick_and_its_items_lie_on_the_floor() {
    let (mut loc, a, v) = two_actors();
    let origin = Coordinate::new(0, 0);
    let place = origin.neighbor(Direction::XY);
    {
        let victim = loc.actors_byid.get_mut(&v).unwrap();
        victim.hp = 1;
        assert!(victim.add_item(AnyItem::Weapon(Weapon::new())));
    }
    loc.pre_any_tick();
    loc.act_with(a, Action::Move(Angle::Forward), &vec![], &vec![vec![]], true, 0);
    assert!(loc.actors_byid[&v].is_dead());
    assert!(!loc.actors_dead.contains(&v));
    assert_eq!(loc.fallen(), vec![(v, place)]);
    // The attacker has not moved: the cell was occupied.
    assert_eq!(loc.actors_byid[&a].coord(), origin);
    let floor = vec![place, place.neighbor(Direction::XY)];
    loc.post_any_tick(&vec![floor], &vec![]);
    assert!(loc.actors_dead.contains(&v));
    assert!(!loc.actors_byid.contains_key(&v));
    assert!(!loc.is_occupied(place));
    assert!(loc.is_occupied(origin));
    assert_eq!(loc.item(place), Some(AnyItem::Weapon(Weapon::new())));
    assert_eq!(loc.actors_alive_ids(), vec![a]);
    assert_eq!(loc.actors_ids(), vec![a]);
}

#[test]
fn spilled_items_take_the_nearest_free_cells_and_the_rest_is_lost() {
    let (mut loc, _a, v) = two_actors();
    let place = Coordinate::new(0, 0).neighbor(Direction::XY);
    {
        let victim = loc.actors_byid.get_mut(&v).unwrap();
        victim.hp = 0;
        for dmg in 1..=4 {
            victim.add_item(AnyItem::Weapon(Weapon { base_dmg: dmg }));
        }
    }
    let wall = Coordinate::new(50, 50);
    let next = place.neighbor(Direction::XY);
    let beyond = next.neighbor(Direction::XY);
    loc.post_any_tick(&vec![vec![place, wall, next, beyond]], &vec![]);
    assert_eq!(loc.item(place), Some(AnyItem::Weapon(Weapon { base_dmg: 1 })));
    assert_eq!(loc.item(wall), None);
    assert_eq!(loc.item(next), Some(AnyItem::Weapon(Weapon { base_dmg: 2 })));
    assert_eq!(loc.item(beyond), Some(AnyItem::Weapon(Weapon { base_dmg: 3 })));
    assert_eq!(loc.items.len(), 3);
}

#[test]
fn noise_reaches_as_far_as_its_radius() {
    let mut loc = Location::new(open_field(8), CoordMap::new());
    let origin = Coordinate::new(0, 0);
    let dir = Direction::XZ;
    let one = origin.neighbor(dir);
    let two = one.neighbor(dir);
    let three = two.neighbor(dir);
    let source = loc.spawn(Actor::new(Race::Human, Position::new(origin, dir)), &vec![]);
    let near = loc.spawn(Actor::new(Race::Elf, Position::new(one, dir)), &vec![]);
    let edge = loc.spawn(Actor::new(Race::Elf, Position::new(two, dir)), &vec![]);
    let far = loc.spawn(Actor::new(Race::Elf, Position::new(three, dir)), &vec![]);
    loc.actors_byid.get_mut(&source).unwrap().noise_makes(2);
    loc.recalculate_noise();
    assert!(loc.actors_byid[&near].hears(origin));
    assert!(loc.actors_byid[&edge].hears(origin));
    assert!(!loc.actors_byid[&far].hears(origin));
    assert!(!loc.actors_byid[&source].hears(origin));
    assert_eq!(loc.actors_byid[&near].heared.len(), 1);
    // Doing it again changes nothing.
    loc.recalculate_noise();
    assert_eq!(loc.actors_byid[&near].heared.len(), 1);
    assert_eq!(loc.actors_byid[&edge].heared.len(), 1);
    assert_eq!(loc.actors_byid[&far].heared.len(), 0);
}

#[test]
fn an_opened_door_lets_the_next_move_through() {
    let mut map = open_field(8);
    let origin = Coordinate::new(0, 0);
    let dir = Direction::ZY;
    let door = origin.neighbor(dir);
    map.set(door, Tile::new(Kind::Door(false)));
    let mut loc = Location::new(map, CoordMap::new());
    let id = loc.spawn(Actor::new(Race::Human, Position::new(origin, dir)), &vec![]);
    assert!(!loc.is_passable(door));

    loc.pre_any_tick();
    loc.act(id, Action::Move(Angle::Forward), &vec![], &vec![vec![door]]);
    assert_eq!(loc.tile(door).kind, Kind::Door(true));
    assert_eq!(loc.actors_byid[&id].coord(), origin);
    loc.post_any_tick(&vec![], &vec![]);
    assert!(loc.is_passable(door));

    loc.pre_any_tick();
    loc.act(id, Action::Move(Angle::Forward), &vec![], &vec![vec![door]]);
    assert_eq!(loc.actors_byid[&id].coord(), door);
    assert!(loc.is_occupied(door));
    assert!(loc.is_occupied(origin));
    assert_eq!(loc.actors_byid[&id].noise_emision, 2);
    assert!(loc.actors_byid[&id].acted_last_turn());
    loc.post_any_tick(&vec![], &vec![]);
    assert!(!loc.is_occupied(origin));
    assert!(loc.is_occupied(door));
}

#[test]
fn actor_on_cooldown_does_nothing() {
    let (mut loc, a, v) = two_actors();
    loc.actors_byid.get_mut(&a).unwrap().action_cd = 2;
    let before_hp = loc.actors_byid[&v].hp;
    let before_pos = loc.actors_byid[&a].pos;
    for action in [
        Action::Wait,
        Action::Move(Angle::Forward),
        Action::Turn(Angle::Left),
        Action::Charge,
        Action::Pick,
        Action::Equip('a'),
        Action::Descend,
        Action::Spin(Angle::Left),
    ] {
        loc.act_with(a, action, &vec![], &vec![vec![], vec![]], true, 0);
        assert_eq!(loc.actors_byid[&a].action_cd, 2);
        assert_eq!(loc.actors_byid[&a].pos, before_pos);
        assert_eq!(loc.actors_byid[&v].hp, before_hp);
        assert!(!loc.actors_byid[&a].acted_last_turn());
        assert_eq!(loc.actors_byid[&v].was_attacked_by.len(), 0);
    }
    // Sitting the turn out lets the cooldown run.
    loc.skip_act(a, &vec![]);
    assert_eq!(loc.actors_byid[&a].action_cd, 1);
}
