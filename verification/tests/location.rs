use hexdungeon::action::Action;
use hexdungeon::actor::Actor;
use hexdungeon::coordmap::CoordMap;
use hexdungeon::hex::Angle;
use hexdungeon::hex::Coordinate;
use hexdungeon::hex::Direction;
use hexdungeon::hex::Position;
use hexdungeon::item::AnyItem;
use hexdungeon::item::Potion;
use hexdungeon::item::Weapon;
use hexdungeon::location::Location;
use hexdungeon::stats::Race;
use hexdungeon::stats::Slot;
use hexdungeon::tile::Kind;
use hexdungeon::tile::Tile;
use hexdungeon::tile::TileMap;

fn field() -> TileMap {
    let mut map = TileMap::new();
    for x in -6..=6 {
        for y in -6..=6 {
            map.set(Coordinate::new(x, y), Tile::new(Kind::Empty));
        }
    }
    map
}

fn start(map: TileMap, items: CoordMap<AnyItem>) -> (Location, u32) {
    let mut loc = Location::new(map, items);
    let a = Actor::new(Race::Human, Position::new(Coordinate::new(0, 0), Direction::XY));
    let id = loc.spawn(a, &vec![]);
    loc.pre_any_tick();
    (loc, id)
}

fn o() -> Coordinate {
    Coordinate::new(0, 0)
}

#[test]
fn a_new_location_is_empty() {
    let loc = Location::new(field(), CoordMap::new());
    assert_eq!(loc.actors_ids(), vec![]);
    assert_eq!(loc.actors_counter, 0);
    assert_eq!(loc.turn, 0);
    assert_eq!(loc.level, 0);
    assert_eq!(loc.player_id, None);
    assert_eq!(loc.tile(o()).kind, Kind::Empty);
    assert_eq!(loc.tile(Coordinate::new(7, 0)).kind, Kind::Wall);
    assert_eq!(loc.tile(Coordinate::new(7, 0)), Tile::new(Kind::Wall));
    assert!(loc.is_passable(o()));
    assert!(!loc.is_passable(Coordinate::new(7, 0)));
    assert_eq!(loc.light(o()), 0);
}

#[test]
fn tiles_block_sight_and_steps_by_their_kind() {
    assert_eq!(Tile::new(Kind::Empty).opaqueness(), 1);
    assert_eq!(Tile::new(Kind::Stairs).opaqueness(), 1);
    assert_eq!(Tile::new(Kind::Door(true)).opaqueness(), 1);
    assert_eq!(Tile::new(Kind::Tree).opaqueness(), 5);
    assert_eq!(Tile::new(Kind::Door(false)).opaqueness(), 1000);
    assert_eq!(Tile::new(Kind::Wall).opaqueness(), 1000);
    assert!(Tile::new(Kind::Empty).is_passable());
    assert!(Tile::new(Kind::Stairs).is_passable());
    assert!(Tile::new(Kind::Door(true)).is_passable());
    assert!(!Tile::new(Kind::Door(false)).is_passable());
    assert!(!Tile::new(Kind::Wall).is_passable());
    assert!(!Tile::new(Kind::Tree).is_passable());
    assert!(Tile::new(Kind::Door(false)).is_closed_door());
    assert!(!Tile::new(Kind::Door(true)).is_closed_door());
    assert!(Tile::new(Kind::Stairs).is_stairs());
    let mut map = TileMap::new();
    assert!(!map.set(Coordinate::new(16_777_217, 0), Tile::new(Kind::Empty)));
    assert!(map.set(Coordinate::new(16_777_216, 0), Tile::new(Kind::Empty)));
    assert_eq!(map.len(), 1);
    assert_eq!(map.cell_at(0), Coordinate::new(16_777_216, 0));
    map.open_door(Coordinate::new(16_777_216, 0));
    assert_eq!(map.tile(Coordinate::new(16_777_216, 0)).kind, Kind::Empty);
    assert_eq!(map.tile(Coordinate::new(16_777_217, 0)).kind, Kind::Wall);
}

#[test]
fn spawning_numbers_the_actors_and_occupies_their_cells() {
    let mut loc = Location::new(field(), CoordMap::new());
    let mut p = Actor::new(Race::Elf, Position::new(o(), Direction::YZ));
    p.set_player();
    let pid = loc.spawn_player(p, &vec![Coordinate::new(0, 1)]);
    let other = loc.spawn(
        Actor::new(Race::Rat, Position::new(Coordinate::new(2, 2), Direction::YZ)),
        &vec![],
    );
    assert_eq!((pid, other), (0, 1));
    assert_eq!(loc.player_id(), 0);
    assert_eq!(loc.player().description(), "Elf");
    assert!(loc.player().is_player());
    assert_eq!(loc.actors_ids(), vec![0, 1]);
    assert!(loc.is_occupied(o()));
    assert!(loc.is_occupied(Coordinate::new(2, 2)));
    assert!(!loc.is_passable(o()));
    // The attributes in effect are there from the start.
    assert_eq!(loc.player().stats.base.vision, 12);
    assert_eq!(loc.player().stats.melee_dmg, 2);
    assert_eq!(loc.player().in_los.len(), 1);
    assert!(loc.player().knows(Coordinate::new(0, 1)));

    let gone = loc.remove(other).unwrap();
    assert_eq!(gone.description(), "Rat");
    assert!(!loc.is_occupied(Coordinate::new(2, 2)));
    assert!(loc.remove(other).is_none());
    assert_eq!(loc.actors_ids(), vec![0]);
    assert_eq!(loc.actors_counter, 2);
}

#[test]
fn turning_changes_the_heading_only() {
    let (mut loc, id) = start(field(), CoordMap::new());
    let ahead = vec![Coordinate::new(0, -1), Coordinate::new(0, -2)];
    loc.act(id, Action::Turn(Angle::Right), &vec![], &vec![ahead.clone()]);
    let a = &loc.actors_byid[&id];
    assert_eq!(a.pos, Position::new(o(), Direction::ZY));
    assert_eq!(a.noise_emision, 2);
    assert!(a.acted_last_turn());
    assert_eq!(a.in_los.len(), 2);
    assert!(a.sees(Coordinate::new(0, -1)));
    assert!(!a.sees(Coordinate::new(0, -2)));
    assert_eq!(a.known.len(), 1);
    assert!(loc.is_occupied(o()));
}

#[test]
fn stepping_occupies_the_new_cell_and_keeps_the_old_until_the_tick_ends() {
    let (mut loc, id) = start(field(), CoordMap::new());
    let there = Coordinate::new(1, -1);
    loc.act(id, Action::Move(Angle::Forward), &vec![], &vec![vec![Coordinate::new(2, -2)]]);
    assert_eq!(loc.actors_byid[&id].coord(), there);
    assert!(loc.is_occupied(there));
    assert!(loc.is_occupied(o()));
    assert!(loc.actors_byid[&id].sees(Coordinate::new(2, -2)));
    loc.post_any_tick(&vec![], &vec![]);
    assert!(!loc.is_occupied(o()));
    assert!(loc.is_occupied(there));
    // A step backwards keeps the heading.
    loc.pre_any_tick();
    loc.act(id, Action::Move(Angle::Back), &vec![], &vec![vec![]]);
    assert_eq!(loc.actors_byid[&id].pos, Position::new(o(), Direction::XY));
}

#[test]
fn walls_and_trees_block_the_way() {
    let mut map = field();
    map.set(Coordinate::new(1, -1), Tile::new(Kind::Wall));
    map.set(Coordinate::new(1, 0), Tile::new(Kind::Tree));
    let (mut loc, id) = start(map, CoordMap::new());
    loc.act(id, Action::Move(Angle::Forward), &vec![], &vec![vec![]]);
    assert_eq!(loc.actors_byid[&id].coord(), o());
    assert_eq!(loc.actors_byid[&id].noise_emision, 0);
    assert!(loc.actors_byid[&id].acted_last_turn());
    loc.act(id, Action::Move(Angle::Left), &vec![], &vec![vec![]]);
    assert_eq!(loc.actors_byid[&id].coord(), o());
    assert!(!loc.is_occupied(Coordinate::new(1, 0)));
}

#[test]
fn a_charge_runs_two_cells_and_costs_stamina() {
    let (mut loc, id) = start(field(), CoordMap::new());
    let first = vec![Coordinate::new(9, 9)];
    let second = vec![Coordinate::new(3, -3)];
    assert_eq!(loc.actors_byid[&id].sp, 10);
    loc.act(id, Action::Charge, &vec![], &vec![first, second]);
    let a = &loc.actors_byid[&id];
    assert_eq!(a.coord(), Coordinate::new(2, -2));
    assert_eq!(a.sp, 3);
    assert!(a.acted_last_turn());
    // What was in sight on the way counts as seen on the way.
    assert_eq!(a.temporary_los.len(), 1);
    assert_eq!(a.in_los.len(), 1);
    assert!(a.in_los(Coordinate::new(3, -3)));
    assert!(a.sees(Coordinate::new(3, -3)));
    assert!(loc.is_occupied(o()));
    assert!(loc.is_occupied(Coordinate::new(1, -1)));
    assert!(loc.is_occupied(Coordinate::new(2, -2)));
    // Too tired now: the next charge is a single step.
    loc.post_any_tick(&vec![], &vec![]);
    loc.pre_any_tick();
    loc.act(id, Action::Charge, &vec![], &vec![vec![], vec![]]);
    assert_eq!(loc.actors_byid[&id].coord(), Coordinate::new(3, -3));
    assert_eq!(loc.actors_byid[&id].sp, 0);
}

#[test]
fn a_charge_stops_at_a_closed_door_and_opens_it() {
    let mut map = field();
    let door = Coordinate::new(2, -2);
    map.set(door, Tile::new(Kind::Door(false)));
    let (mut loc, id) = start(map, CoordMap::new());
    loc.act(id, Action::Charge, &vec![], &vec![vec![], vec![]]);
    assert_eq!(loc.actors_byid[&id].coord(), Coordinate::new(1, -1));
    assert_eq!(loc.tile(door).kind, Kind::Door(true));
}

#[test]
fn spinning_steps_sideways_and_turns_the_other_way() {
    let (mut loc, id) = start(field(), CoordMap::new());
    loc.act(id, Action::Spin(Angle::Left), &vec![], &vec![vec![]]);
    assert_eq!(
        loc.actors_byid[&id].pos,
        Position::new(Coordinate::new(1, 0), Direction::ZY)
    );
    loc.post_any_tick(&vec![], &vec![]);
    loc.pre_any_tick();
    loc.act(id, Action::Spin(Angle::Back), &vec![], &vec![vec![]]);
    assert_eq!(
        loc.actors_byid[&id].pos,
        Position::new(Coordinate::new(1, 0), Direction::ZY)
    );
}

#[test]
fn waiting_rests() {
    let (mut loc, id) = start(field(), CoordMap::new());
    loc.actors_byid.get_mut(&id).unwrap().sp = 4;
    loc.act(id, Action::Wait, &vec![], &vec![vec![]]);
    assert_eq!(loc.actors_byid[&id].sp, 5);
    assert!(!loc.actors_byid[&id].acted_last_turn());
    assert_eq!(loc.actors_byid[&id].saved_sp, 4);
}

#[test]
fn picking_up_takes_the_item_ahead() {
    let mut items = CoordMap::new();
    let sword = AnyItem::Weapon(Weapon::new());
    items.insert(Coordinate::new(1, -1), sword);
    items.insert(Coordinate::new(3, 3), AnyItem::Potion(Potion { heal: 1 }));
    let (mut loc, id) = start(field(), items);
    assert_eq!(loc.item(Coordinate::new(1, -1)), Some(sword));
    assert_eq!(loc.at(Coordinate::new(1, -1)).item(), Some(sword));
    loc.act(id, Action::Pick, &vec![], &vec![vec![]]);
    assert_eq!(loc.item(Coordinate::new(1, -1)), None);
    assert_eq!(loc.actors_byid[&id].items_backpack.get('a'), Some(&sword));
    assert_eq!(loc.items.len(), 1);
    loc.act(id, Action::Pick, &vec![], &vec![vec![]]);
    assert_eq!(loc.actors_byid[&id].items_backpack.len(), 1);
    loc.act(id, Action::Equip('a'), &vec![], &vec![vec![]]);
    assert_eq!(loc.actors_byid[&id].items_equipped.get(Slot::RHand), Some(('a', sword)));
    assert_eq!(loc.actors_byid[&id].action_cd, 2);
    // The cooldown now holds the actor back.
    loc.act(id, Action::Turn(Angle::Left), &vec![], &vec![vec![]]);
    assert_eq!(loc.actors_byid[&id].pos.dir, Direction::XY);
    loc.skip_act(id, &vec![]);
    loc.skip_act(id, &vec![]);
    loc.act(id, Action::Turn(Angle::Left), &vec![], &vec![vec![]]);
    assert_eq!(loc.actors_byid[&id].pos.dir, Direction::XZ);
}

#[test]
fn stairs_are_taken_only_where_they_are() {
    let mut map = field();
    map.set(Coordinate::new(1, -1), Tile::new(Kind::Stairs));
    let (mut loc, id) = start(map, CoordMap::new());
    loc.act(id, Action::Descend, &vec![], &vec![vec![]]);
    assert!(!loc.actors_byid[&id].descending);
    loc.act(id, Action::Move(Angle::Forward), &vec![], &vec![vec![]]);
    loc.act(id, Action::Descend, &vec![], &vec![vec![]]);
    assert!(loc.actors_byid[&id].descending);
}

#[test]
fn running_into_an_actor_is_an_attack() {
    let (mut loc, id) = start(field(), CoordMap::new());
    let there = Coordinate::new(1, -1);
    let rat = loc.spawn(Actor::new(Race::Rat, Position::new(there, Direction::XY)), &vec![]);
    loc.actors_byid.get_mut(&rat).unwrap().hp = 30;
    let before = loc.actors_byid[&rat].hp;
    loc.act_with(id, Action::Move(Angle::Forward), &vec![], &vec![vec![]], true, 0);
    // Human strength 3 gives 3 damage, doubled from behind.
    assert_eq!(loc.actors_byid[&rat].hp, before - 6);
    assert_eq!(loc.actors_byid[&id].coord(), o());
    assert_eq!(loc.actors_byid[&id].did_attack.len(), 1);
    assert_eq!(loc.actors_byid[&id].did_attack[0].who, "Rat");
    assert!(loc.actors_byid[&id].did_attack[0].behind);
    assert_eq!(loc.actors_byid[&rat].was_attacked_by[0].who, "Human");
    assert_eq!(loc.actors_byid[&rat].noise_emision, 7);
    // A miss costs nothing but is recorded.
    loc.act_with(id, Action::Charge, &vec![], &vec![vec![], vec![]], false, 0);
    assert_eq!(loc.actors_byid[&rat].hp, before - 6);
    assert_eq!(loc.actors_byid[&rat].was_attacked_by.len(), 2);
    assert_eq!(loc.actors_byid[&id].coord(), o());
    // A step backwards into an actor is no attack.
    let behind = Coordinate::new(-1, 1);
    let elf = loc.spawn(Actor::new(Race::Elf, Position::new(behind, Direction::XY)), &vec![]);
    loc.act_with(id, Action::Move(Angle::Back), &vec![], &vec![vec![]], true, 0);
    assert_eq!(loc.actors_byid[&elf].was_attacked_by.len(), 0);
    assert_eq!(loc.actors_byid[&id].coord(), o());
    // The rolled attack leaves a record too.
    loc.act(id, Action::Move(Angle::Forward), &vec![], &vec![vec![]]);
    assert_eq!(loc.actors_byid[&rat].was_attacked_by.len(), 3);
}

#[test]
fn an_actor_that_moved_away_can_still_be_hit_where_it_was() {
    let (mut loc, id) = start(field(), CoordMap::new());
    let there = Coordinate::new(1, -1);
    let rat = loc.spawn(Actor::new(Race::Rat, Position::new(there, Direction::XY)), &vec![]);
    loc.actors_byid.get_mut(&rat).unwrap().hp = 50;
    loc.act(rat, Action::Move(Angle::Forward), &vec![], &vec![vec![]]);
    assert_eq!(loc.actors_byid[&rat].coord(), Coordinate::new(2, -2));
    loc.act_with(id, Action::Move(Angle::Forward), &vec![], &vec![vec![]], true, 0);
    assert_eq!(loc.actors_byid[&rat].hp, 44);
    assert_eq!(loc.actors_byid[&id].coord(), o());
}

#[test]
fn looking_at_a_cell() {
    let mut items = CoordMap::new();
    items.insert(Coordinate::new(1, -1), AnyItem::Weapon(Weapon { base_dmg: 3 }));
    let (mut loc, id) = start(field(), items);
    loc.light_map.insert(o(), 4);
    let at = loc.at(o());
    assert!(at.is_occupied());
    assert!(!at.is_passable());
    assert_eq!(at.light(), 4);
    assert_eq!(at.tile().kind, Kind::Empty);
    assert_eq!(at.item(), None);
    assert_eq!(at.actor_map_or(0, |a| a.hp), 20);
    assert_eq!(at.item_map_or(-1, |_| 1), -1);
    let ahead = loc.at(Coordinate::new(1, -1));
    assert!(!ahead.is_occupied());
    assert!(ahead.is_passable());
    assert_eq!(ahead.actor_map_or(0, |a| a.hp), 0);
    assert_eq!(ahead.item_map_or(-1, |i| i.healing()), 0);
    assert_eq!(ahead.light_as_seen_by(&loc.actors_byid[&id]), 0);
    assert_eq!(loc.at(o()).light_as_seen_by(&loc.actors_byid[&id]), 4);

    let mut hand = loc.at_mut(Coordinate::new(1, -1));
    assert_eq!(hand.pick_item(), Some(AnyItem::Weapon(Weapon { base_dmg: 3 })));
    assert_eq!(hand.pick_item(), None);
    // A cell that cannot be walked to from where the item falls does not count.
    hand.drop_item(AnyItem::Potion(Potion { heal: 2 }), &vec![Coordinate::new(2, 2)]);
    hand.drop_item(
        AnyItem::Potion(Potion { heal: 3 }),
        &vec![Coordinate::new(2, 2), Coordinate::new(1, -1), Coordinate::new(2, -2)],
    );
    assert_eq!(loc.item(Coordinate::new(2, 2)), None);
    assert_eq!(loc.item(Coordinate::new(1, -1)), Some(AnyItem::Potion(Potion { heal: 3 })));
    assert_eq!(loc.pick_item(Coordinate::new(1, -1)), Some(AnyItem::Potion(Potion { heal: 3 })));
    loc.drop_item(o(), AnyItem::Weapon(Weapon::new()), &vec![]);
    assert_eq!(loc.items.len(), 0);
}

#[test]
fn a_dropped_item_lands_on_the_first_free_cell_that_can_be_walked_to() {
    let mut map = field();
    map.set(Coordinate::new(1, 0), Tile::new(Kind::Wall));
    let mut loc = Location::new(map, CoordMap::new());
    let sword = |dmg: i32| AnyItem::Weapon(Weapon { base_dmg: dmg });
    let floor = vec![
        Coordinate::new(3, 0),
        o(),
        Coordinate::new(1, 0),
        Coordinate::new(2, 0),
        Coordinate::new(0, 1),
        Coordinate::new(1, 1),
        Coordinate::new(2, 0),
        Coordinate::new(3, 0),
    ];
    for dmg in 1..=6 {
        loc.drop_item(o(), sword(dmg), &floor);
    }
    assert_eq!(loc.item(o()), Some(sword(1)));
    // The wall cannot be walked on, and what lies behind it only round it.
    assert_eq!(loc.item(Coordinate::new(1, 0)), None);
    assert_eq!(loc.item(Coordinate::new(0, 1)), Some(sword(2)));
    assert_eq!(loc.item(Coordinate::new(1, 1)), Some(sword(3)));
    assert_eq!(loc.item(Coordinate::new(2, 0)), Some(sword(4)));
    assert_eq!(loc.item(Coordinate::new(3, 0)), Some(sword(5)));
    assert_eq!(loc.items.len(), 5);
    // An item that falls where nobody can stand is lost.
    loc.drop_item(Coordinate::new(1, 0), sword(7), &vec![Coordinate::new(1, 0), Coordinate::new(2, 1)]);
    assert_eq!(loc.items.len(), 5);
}

#[test]
fn a_wall_shows_the_light_of_the_cell_in_front_of_it() {
    let mut map = field();
    let wall = Coordinate::new(3, 0);
    map.set(wall, Tile::new(Kind::Wall));
    map.set(Coordinate::new(4, 0), Tile::new(Kind::Wall));
    let mut loc = Location::new(map, CoordMap::new());
    loc.light_map.insert(Coordinate::new(2, 0), 5);
    loc.light_map.insert(wall, 1);
    loc.light_map.insert(Coordinate::new(4, 0), 9);
    assert_eq!(loc.light_as_seen_from(wall, o()), 5);
    assert_eq!(loc.light_as_seen_from(wall, Coordinate::new(-3, 0)), 5);
    // From the far side the wall hides behind another wall.
    assert_eq!(loc.light_as_seen_from(wall, Coordinate::new(6, 0)), 0);
    // From an angle, the brighter of the two cells in front counts.
    loc.light_map = CoordMap::new();
    loc.light_map.insert(Coordinate::new(2, 0), 5);
    loc.light_map.insert(Coordinate::new(2, 1), 7);
    assert_eq!(loc.light_as_seen_from(wall, Coordinate::new(0, 1)), 7);
    assert_eq!(loc.light_as_seen_from(Coordinate::new(2, 0), o()), 5);
    let viewer = Actor::new(Race::Human, Position::new(o(), Direction::XZ));
    let mut los = hexdungeon::coordmap::CoordSet::new();
    los.insert(wall);
    los.insert(Coordinate::new(4, 0));
    let seen = viewer.los_to_visible(&loc, &los);
    assert!(seen.contains(wall));
    assert!(!seen.contains(Coordinate::new(4, 0)));
}
