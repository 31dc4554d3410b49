use hexdungeon::action::Action;
use hexdungeon::actor::Actor;
use hexdungeon::ai::backs_off_to;
use hexdungeon::ai::head_for;
use hexdungeon::ai::may_pass;
use hexdungeon::ai::pony_follow;
use hexdungeon::ai::pursuit;
use hexdungeon::ai::roam;
use hexdungeon::ai::roam_on;
use hexdungeon::ai::Pursuit;
use hexdungeon::coordmap::CoordMap;
use hexdungeon::engine::Engine;
use hexdungeon::hex::Angle;
use hexdungeon::hex::Coordinate;
use hexdungeon::hex::Direction;
use hexdungeon::hex::Position;
use hexdungeon::item::AnyItem;
use hexdungeon::item::Armor;
use hexdungeon::item::Weapon;
use hexdungeon::location::Location;
use hexdungeon::stats::Race;
use hexdungeon::tile::Kind;
use hexdungeon::tile::Tile;
use hexdungeon::tile::TileMap;

fn field() -> TileMap {
    let mut map = TileMap::new();
    for x in -6..=6 {
        for y in -6..=6 {
            map.set(Coordinate::new(x, y), Tile::new(Kind::Empty));
        }
    }
    map
}

fn at(x: i32, y: i32) -> Coordinate {
    Coordinate::new(x, y)
}

#[test]
fn light_is_the_strongest_of_the_rays() {
    let mut map = field();
    map.set(at(0, 0), Tile { kind: Kind::Empty, light: 3, area: None });
    map.set(at(1, 0), Tile { kind: Kind::Empty, light: 5, area: None });
    let mut loc = Location::new(map, CoordMap::new());
    assert_eq!(loc.light_sources(), vec![(at(0, 0), 3), (at(1, 0), 5)]);
    let rays = vec![
        vec![(at(0, 0), 3), (at(1, 0), 2), (at(2, 0), 1)],
        vec![(at(1, 0), 5), (at(2, 0), 1), (at(3, 0), 0), (at(4, 0), -2), (at(0, 0), 1)],
        vec![(at(5, 5), 9)],
    ];
    loc.recalculate_light_map(&rays);
    assert_eq!(loc.light(at(0, 0)), 3);
    assert_eq!(loc.light(at(1, 0)), 5);
    assert_eq!(loc.light(at(2, 0)), 1);
    assert_eq!(loc.light(at(3, 0)), 0);
    assert_eq!(loc.light(at(4, 0)), 0);
    assert_eq!(loc.light(at(5, 5)), 0);
    assert_eq!(loc.light_map.len(), 3);
    // Doing it again gives the same map.
    loc.recalculate_light_map(&rays);
    assert_eq!(loc.light(at(0, 0)), 3);
    assert_eq!(loc.light(at(1, 0)), 5);
    assert_eq!(loc.light_map.len(), 3);
    // The old light does not carry over.
    loc.recalculate_light_map(&vec![vec![], vec![(at(1, 1), 4)]]);
    assert_eq!(loc.light(at(1, 0)), 0);
    assert_eq!(loc.light(at(1, 1)), 4);
    assert_eq!(loc.light_map.len(), 1);
}

#[test]
fn light_reaches_no_further_than_its_source_lets_it() {
    let mut map = field();
    map.set(at(0, 0), Tile { kind: Kind::Empty, light: 3, area: None });
    let mut loc = Location::new(map, CoordMap::new());
    let ray = vec![
        (at(0, 0), 4),
        (at(1, 0), 3),
        (at(2, 0), 1),
        (at(2, 1), 1),
        (at(3, 0), 1),
        (at(0, 2), 2),
        (at(16_777_217, 0), 1),
    ];
    loc.recalculate_light_map(&vec![ray]);
    assert_eq!(loc.light(at(0, 0)), 0);
    assert_eq!(loc.light(at(1, 0)), 0);
    assert_eq!(loc.light(at(2, 0)), 1);
    assert_eq!(loc.light(at(2, 1)), 0);
    assert_eq!(loc.light(at(3, 0)), 0);
    assert_eq!(loc.light(at(0, 2)), 0);
    assert_eq!(loc.light_map.len(), 1);
    // A ray without a source counts for nothing.
    loc.recalculate_light_map(&vec![vec![], vec![(at(0, 0), 1)]]);
    assert_eq!(loc.light_map.len(), 0);
}

#[test]
fn the_sources_of_light_are_lit_tiles_and_living_actors_with_a_light() {
    let mut map = field();
    map.set(at(2, 2), Tile { kind: Kind::Empty, light: 4, area: None });
    map.set(at(7, 7), Tile { kind: Kind::Wall, light: 6, area: None });
    let mut loc = Location::new(map, CoordMap::new());
    let mut torch = Actor::new(Race::Human, Position::new(at(0, 0), Direction::XY));
    torch.light_emision = 7;
    let dark = Actor::new(Race::Human, Position::new(at(1, 0), Direction::XY));
    let mut burnt = Actor::new(Race::Human, Position::new(at(2, 0), Direction::XY));
    burnt.light_emision = 3;
    burnt.hp = 0;
    let mut sun = Actor::new(Race::Human, Position::new(at(3, 0), Direction::XY));
    sun.light_emision = u32::MAX;
    loc.spawn(torch, &vec![]);
    loc.spawn(dark, &vec![]);
    loc.spawn(burnt, &vec![]);
    loc.spawn(sun, &vec![]);
    assert_eq!(
        loc.light_sources(),
        vec![(at(2, 2), 4), (at(7, 7), 6), (at(0, 0), 7), (at(3, 0), i32::MAX)]
    );
    assert_eq!(loc.fallen(), vec![(2, at(2, 0))]);
    assert_eq!(loc.actors_alive_ids(), vec![0, 1, 3]);
    assert_eq!(loc.actors_ids(), vec![0, 1, 2, 3]);
}

#[test]
fn the_end_of_a_tick_settles_the_location() {
    let mut map = field();
    map.set(at(1, -1), Tile { kind: Kind::Empty, light: 2, area: None });
    let mut loc = Location::new(map, CoordMap::new());
    let a = loc.spawn(Actor::new(Race::Human, Position::new(at(0, 0), Direction::XY)), &vec![]);
    let b = loc.spawn(Actor::new(Race::Dwarf, Position::new(at(0, 3), Direction::XY)), &vec![]);
    {
        let dwarf = loc.actors_byid.get_mut(&b).unwrap();
        dwarf.equip(AnyItem::Armor(Armor { ac: 2 }), 'a');
        dwarf.equip(AnyItem::Weapon(Weapon { base_dmg: 3 }), 'b');
        dwarf.add_item(AnyItem::Weapon(Weapon { base_dmg: 9 }));
        dwarf.hp = -3;
    }
    loc.pre_any_tick();
    loc.act(a, Action::Move(Angle::Forward), &vec![], &vec![vec![]]);
    let floor = vec![at(0, 3), at(0, 4), at(1, 3), at(1, 2)];
    loc.post_any_tick(&vec![floor], &vec![vec![(at(1, -1), 2)]]);
    assert_eq!(loc.actors_ids(), vec![a]);
    assert!(loc.actors_dead.contains(&b));
    assert_eq!(loc.actors_coord_to_id.len(), 1);
    assert!(loc.is_occupied(at(1, -1)));
    // The backpack goes first, then what was worn, slot by slot.
    assert_eq!(loc.item(at(0, 3)), Some(AnyItem::Weapon(Weapon { base_dmg: 9 })));
    assert_eq!(loc.item(at(0, 4)), Some(AnyItem::Weapon(Weapon { base_dmg: 3 })));
    assert_eq!(loc.item(at(1, 3)), Some(AnyItem::Armor(Armor { ac: 2 })));
    assert_eq!(loc.item(at(1, 2)), None);
    assert_eq!(loc.light(at(1, -1)), 2);
    assert_eq!(loc.turn, 0);
    loc.post_turn();
    assert_eq!(loc.turn, 1);
    assert_eq!(loc.fallen(), vec![]);
    // The numbers of the dead are not given out again.
    let c = loc.spawn(Actor::new(Race::Rat, Position::new(at(0, 3), Direction::XY)), &vec![]);
    assert_eq!(c, 2);
}

#[test]
fn noise_is_heard_from_every_source_in_reach() {
    let mut loc = Location::new(field(), CoordMap::new());
    let a = loc.spawn(Actor::new(Race::Human, Position::new(at(0, 0), Direction::XY)), &vec![]);
    let b = loc.spawn(Actor::new(Race::Goblin, Position::new(at(0, 2), Direction::XY)), &vec![]);
    let c = loc.spawn(Actor::new(Race::Rat, Position::new(at(0, 5), Direction::XY)), &vec![]);
    let d = loc.spawn(Actor::new(Race::Elf, Position::new(at(0, 1), Direction::XY)), &vec![]);
    loc.actors_byid.get_mut(&a).unwrap().noise_makes(2);
    loc.actors_byid.get_mut(&b).unwrap().noise_makes(3);
    loc.actors_byid.get_mut(&d).unwrap().noise_makes(7);
    loc.actors_byid.get_mut(&d).unwrap().hp = 0;
    loc.recalculate_noise();
    let heard = |id: u32, from: Coordinate| loc.actors_byid[&id].hears(from);
    assert!(heard(b, at(0, 0)));
    assert!(heard(a, at(0, 2)));
    assert!(heard(c, at(0, 2)));
    assert!(!heard(c, at(0, 0)));
    // The dead make no noise, and hear none.
    assert!(!heard(a, at(0, 1)));
    assert_eq!(loc.actors_byid[&d].heared.len(), 0);
    assert_eq!(loc.actors_byid[&a].heared.len(), 1);
    assert_eq!(loc.actors_byid[&b].heared.len(), 1);
    assert_eq!(loc.actors_byid[&c].heared.len(), 1);
    assert_eq!(
        loc.actors_byid[&c].heared.get(at(0, 2)),
        Some(&hexdungeon::actor::Noise::Creature(Race::Goblin))
    );
}

#[test]
fn the_engine_lets_the_player_act_first_and_then_the_others() {
    let mut loc = Location::new(field(), CoordMap::new());
    let rat = loc.spawn(Actor::new(Race::Rat, Position::new(at(3, 3), Direction::XY)), &vec![]);
    let mut engine = Engine::new(loc);
    let mut hero = Actor::new(Race::Human, Position::new(at(0, 0), Direction::XY));
    hero.set_player();
    let pid = engine.spawn(hero, &vec![]);
    let elf = engine
        .current_location_mut()
        .spawn(Actor::new(Race::Elf, Position::new(at(-3, -3), Direction::XY)), &vec![]);
    assert_eq!((rat, pid, elf), (0, 1, 2));
    engine.current_location_mut().actors_byid.get_mut(&elf).unwrap().action_cd = 1;
    assert!(engine.needs_player_input());
    assert_eq!(engine.next_actor(), None);
    assert_eq!(engine.turn(), 0);

    let over = engine.player_act(Action::Move(Angle::Forward), &vec![], &vec![vec![]]);
    assert!(!over);
    assert!(!engine.needs_player_input());
    assert!(!engine.checks_after_act());
    assert_eq!(engine.current_location().player().coord(), at(1, -1));
    assert_eq!(engine.next_actor(), Some(elf));
    // The elf is held back and sits its turn out.
    assert_eq!(engine.one_actor_act(Action::Turn(Angle::Left), &vec![], &vec![vec![]]), elf);
    assert_eq!(engine.current_location().actors_byid[&elf].pos.dir, Direction::XY);
    assert_eq!(engine.current_location().actors_byid[&elf].action_cd, 0);
    assert_eq!(engine.next_actor(), Some(rat));
    assert_eq!(engine.one_actor_act(Action::Turn(Angle::Left), &vec![], &vec![vec![]]), rat);
    assert_eq!(engine.current_location().actors_byid[&rat].pos.dir, Direction::XZ);
    assert!(engine.checks_after_act());
    engine.end_tick(&vec![], &vec![]);
    assert_eq!(engine.turn(), 1);
    assert!(engine.needs_player_input());
    assert!(!engine.current_location().is_occupied(at(0, 0)));
}

#[test]
fn roaming_follows_the_draw() {
    assert_eq!(roam_on(0), Action::Turn(Angle::Right));
    assert_eq!(roam_on(1), Action::Turn(Angle::Left));
    assert_eq!(roam_on(2), Action::Move(Angle::Forward));
    for draw in 3..10 {
        assert_eq!(roam_on(draw), Action::Wait);
    }
    let mut waits = 0;
    for _ in 0..300 {
        let a = roam();
        assert!(matches!(
            a,
            Action::Wait
                | Action::Turn(Angle::Left)
                | Action::Turn(Angle::Right)
                | Action::Move(Angle::Forward)
        ));
        if a == Action::Wait {
            waits += 1;
        }
    }
    assert!(waits > 120 && waits < 280);
}

#[test]
fn a_follower_keeps_its_distance() {
    let o = at(0, 0);
    assert_eq!(pursuit(o, at(0, 2)), Pursuit::BackOff);
    assert_eq!(pursuit(o, at(0, 0)), Pursuit::BackOff);
    assert_eq!(pursuit(o, at(0, 3)), Pursuit::Hold);
    assert_eq!(pursuit(o, at(0, 4)), Pursuit::Hold);
    assert_eq!(pursuit(o, at(0, 5)), Pursuit::Approach);
    assert_eq!(pursuit(o, at(4, 4)), Pursuit::Approach);
    assert!(backs_off_to(at(1, 1), at(1, 4)));
    assert!(!backs_off_to(at(1, 1), at(1, 3)));
    assert!(may_pass(o, o, false));
    assert!(may_pass(o, at(0, 9), true));
    assert!(!may_pass(o, at(0, 10), true));
    assert!(!may_pass(o, at(0, 1), false));
}

#[test]
fn heading_for_a_neighbour_turns_first_and_then_steps() {
    let pos = Position::new(at(0, 0), Direction::XY);
    assert_eq!(head_for(pos, at(1, -1)), Action::Move(Angle::Forward));
    assert_eq!(head_for(pos, at(0, -1)), Action::Turn(Angle::Right));
    assert_eq!(head_for(pos, at(1, 0)), Action::Turn(Angle::Left));
    assert_eq!(head_for(pos, at(-1, 1)), Action::Turn(Angle::Back));
    assert_eq!(head_for(pos, at(0, 0)), Action::Wait);
    assert_eq!(pony_follow(pos, Some(at(1, -1))), Action::Move(Angle::Forward));
    assert_eq!(pony_follow(pos, Some(at(-1, 0))), Action::Turn(Angle::RightBack));
    let a = pony_follow(pos, None);
    assert!(matches!(a, Action::Wait | Action::Turn(_) | Action::Move(Angle::Forward)));
}

#[test]
fn missing_lists_count_as_empty() {
    let mut loc = Location::new(field(), CoordMap::new());
    let a = loc.spawn(Actor::new(Race::Human, Position::new(at(0, 0), Direction::XY)), &vec![]);
    let b = loc.spawn(Actor::new(Race::Rat, Position::new(at(3, 0), Direction::XY)), &vec![]);
    let c = loc.spawn(Actor::new(Race::Rat, Position::new(at(4, 0), Direction::XY)), &vec![]);
    for id in [b, c] {
        let rat = loc.actors_byid.get_mut(&id).unwrap();
        rat.add_item(AnyItem::Weapon(Weapon::new()));
        rat.hp = 0;
    }
    loc.pre_any_tick();
    // No line of sight is given for the second cell of the charge.
    loc.act(a, Action::Charge, &vec![at(5, 5)], &vec![vec![at(1, -1)]]);
    assert_eq!(loc.actors_byid[&a].coord(), at(2, -2));
    assert_eq!(loc.actors_byid[&a].in_los.len(), 0);
    assert_eq!(loc.actors_byid[&a].temporary_los.len(), 0);
    // What was glimpsed on the way is unlit and far from where the actor ends up.
    assert!(!loc.actors_byid[&a].knows(at(1, -1)));
    // Only the first of the two dead has a floor to fall on.
    loc.post_any_tick(&vec![vec![at(3, 0)]], &vec![]);
    assert_eq!(loc.item(at(3, 0)), Some(AnyItem::Weapon(Weapon::new())));
    assert_eq!(loc.items.len(), 1);
    assert!(loc.actors_dead.contains(&b));
    assert!(loc.actors_dead.contains(&c));
    assert_eq!(loc.actors_ids(), vec![a]);
}

#[test]
fn an_actor_killed_before_its_turn_sits_it_out() {
    let mut loc = Location::new(field(), CoordMap::new());
    let rat = loc.spawn(Actor::new(Race::Rat, Position::new(at(1, 0), Direction::ZX)), &vec![]);
    let elf = loc.spawn(Actor::new(Race::Elf, Position::new(at(2, 0), Direction::ZX)), &vec![]);
    let mut engine = Engine::new(loc);
    let mut hero = Actor::new(Race::Human, Position::new(at(-3, 0), Direction::XZ));
    hero.set_player();
    engine.spawn(hero, &vec![]);
    engine.current_location_mut().actors_byid.get_mut(&rat).unwrap().hp = 1;
    assert!(!engine.player_act(Action::Wait, &vec![], &vec![vec![]]));
    // The elf stabs the rat in the back, with luck fixed by the rat's lack of defence.
    engine.current_location_mut().actors_byid.get_mut(&rat).unwrap().stats.base.ev = 0;
    engine.current_location_mut().actors_byid.get_mut(&rat).unwrap().stats.base.ac = 0;
    assert_eq!(engine.one_actor_act(Action::Move(Angle::Forward), &vec![], &vec![vec![]]), elf);
    assert!(engine.current_location().actors_byid[&rat].is_dead());
    assert_eq!(engine.next_actor(), Some(rat));
    assert_eq!(engine.one_actor_act(Action::Move(Angle::Forward), &vec![], &vec![vec![]]), rat);
    assert_eq!(engine.current_location().actors_byid[&rat].coord(), at(1, 0));
    assert!(engine.checks_after_act());
    engine.end_tick(&vec![vec![at(1, 0)]], &vec![]);
    assert_eq!(engine.current_location().actors_ids(), vec![elf, 2]);
    assert!(engine.current_location().actors_dead.contains(&rat));
}
