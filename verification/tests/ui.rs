use hexdungeon::action::Action;
use hexdungeon::actor::Actor;
use hexdungeon::coordmap::CoordMap;
use hexdungeon::hex::Angle;
use hexdungeon::hex::Coordinate;
use hexdungeon::hex::Direction;
use hexdungeon::hex::Position;
use hexdungeon::item::AnyItem;
use hexdungeon::item::Type;
use hexdungeon::item::Weapon;
use hexdungeon::location::Location;
use hexdungeon::stats::Race;
use hexdungeon::tile::Area;
use hexdungeon::tile::Kind;
use hexdungeon::tile::Tile;
use hexdungeon::tile::TileMap;
use hexdungeon::ui::bar_cell;
use hexdungeon::ui::bar_glyph;
use hexdungeon::ui::bar_width;
use hexdungeon::ui::fade;
use hexdungeon::ui::format_areas;
use hexdungeon::ui::item_to_str;
use hexdungeon::ui::march;
use hexdungeon::ui::on_key;
use hexdungeon::ui::shade;
use hexdungeon::ui::tile_description;
use hexdungeon::ui::turn_to_color;
use hexdungeon::ui::Allocator;
use hexdungeon::ui::BarCell;
use hexdungeon::ui::Command;
use hexdungeon::ui::FSMode;
use hexdungeon::ui::InvMode;
use hexdungeon::ui::LogEntry;
use hexdungeon::ui::Mode;
use hexdungeon::ui::Shade;

#[test]
fn item_glyphs() {
    assert_eq!(item_to_str(Type::Weapon), ")");
    assert_eq!(item_to_str(Type::Armor), "[");
    assert_eq!(item_to_str(Type::Potion), "!");
}

#[test]
fn colour_pairs_are_handed_out_once() {
    let mut a = Allocator::new();
    assert_eq!(a.known(1, 2), None);
    assert_eq!(a.get(1, 2), (1, true));
    assert_eq!(a.get(2, 1), (2, true));
    assert_eq!(a.get(1, 2), (1, false));
    assert_eq!(a.get(0, 0), (3, true));
    assert_eq!(a.get(255, 255), (4, true));
    assert_eq!(a.get(255, 254), (5, true));
    assert_eq!(a.get(254, 255), (6, true));
    assert_eq!(a.known(2, 1), Some(2));
    assert_eq!(a.known(255, 254), Some(5));
    assert_eq!(a.known(254, 255), Some(6));
    assert_eq!(a.known(9, 9), None);
    assert_eq!(a.upcoming(), 7);
}

#[test]
fn log_lines_fade_with_age() {
    assert_eq!(fade(10, 10), Some(15));
    assert_eq!(fade(10, 11), Some(15));
    assert_eq!(fade(11, 10), Some(252));
    assert_eq!(fade(13, 10), Some(252));
    assert_eq!(fade(14, 10), Some(248));
    assert_eq!(fade(25, 10), Some(248));
    assert_eq!(fade(26, 10), Some(244));
    assert_eq!(fade(41, 10), Some(244));
    assert_eq!(fade(42, 10), Some(240));
    assert_eq!(fade(73, 10), Some(240));
    assert_eq!(fade(74, 10), None);
    let mut a = Allocator::new();
    assert_eq!(turn_to_color(10, 10, &mut a), Some((1, true)));
    assert_eq!(turn_to_color(12, 10, &mut a), Some((2, true)));
    assert_eq!(turn_to_color(11, 11, &mut a), Some((1, false)));
    assert_eq!(turn_to_color(100, 10, &mut a), None);
    assert_eq!(a.known(15, 233), Some(1));
    let entry = LogEntry { turn: 3, text: "You see: room.".to_string() };
    assert_eq!(fade(5, entry.turn), Some(252));
}

#[test]
fn bars_and_shades() {
    assert_eq!(bar_width(5, 10, 20), 10);
    assert_eq!(bar_width(-5, 10, 20), 0);
    assert_eq!(bar_width(5, 0, 20), 100);
    assert_eq!(bar_width(7, 9, 10), 7);
    assert_eq!(bar_width(i32::MAX, 1, u32::MAX), 2147483647 * 4294967295);
    assert_eq!(bar_cell(0, 3, 5), BarCell::Kept);
    assert_eq!(bar_cell(3, 3, 5), BarCell::Lost);
    assert_eq!(bar_cell(3, 5, 3), BarCell::Gained);
    assert_eq!(bar_cell(5, 5, 3), BarCell::Empty);
    assert_eq!(bar_glyph(BarCell::Kept), "=");
    assert_eq!(bar_glyph(BarCell::Lost), "-");
    assert_eq!(bar_glyph(BarCell::Gained), "+");
    assert_eq!(bar_glyph(BarCell::Empty), " ");
    assert_eq!(shade(false, 9), Shade::Dark);
    assert_eq!(shade(true, 0), Shade::Dark);
    assert_eq!(shade(true, 1), Shade::Dim);
    assert_eq!(shade(true, 2), Shade::Dim);
    assert_eq!(shade(true, 3), Shade::Lit);
}

#[test]
fn areas_are_listed_in_a_sentence() {
    assert_eq!(format_areas(&vec![]), None);
    assert_eq!(format_areas(&vec!["room".to_string()]), Some("You see: room.".to_string()));
    assert_eq!(
        format_areas(&vec!["room".to_string(), "hall".to_string(), "cave".to_string()]),
        Some("You see: room, hall, cave.".to_string())
    );
}

fn origin() -> Position {
    Position::new(Coordinate::new(0, 0), Direction::XY)
}

#[test]
fn keys_in_the_normal_mode() {
    let game = |key: char| on_key(Mode::Normal, None, origin(), key);
    let table = [
        ('h', Action::Turn(Angle::Left)),
        ('l', Action::Turn(Angle::Right)),
        ('k', Action::Move(Angle::Forward)),
        ('u', Action::Spin(Angle::Left)),
        ('i', Action::Spin(Angle::Right)),
        ('H', Action::Move(Angle::Left)),
        ('L', Action::Move(Angle::Right)),
        ('j', Action::Move(Angle::Back)),
        ('.', Action::Wait),
        (',', Action::Pick),
    ];
    for (key, action) in table {
        let r = game(key);
        assert_eq!(r.command, Some(Command::Game(action)));
        assert_eq!(r.mode, Mode::Normal);
        assert!(r.done);
    }
    assert_eq!(game('o').command, Some(Command::AutoExplore));
    assert_eq!(game('q').mode, Mode::FullScreen(FSMode::Quit));
    assert_eq!(game('q').command, Some(Command::Redraw));
    assert_eq!(game('I').mode, Mode::Inventory(InvMode::View));
    assert_eq!(game('E').mode, Mode::Inventory(InvMode::Equip));
    assert_eq!(game('x').mode, Mode::Examine);
    assert_eq!(game('x').examine_pos, None);
    assert_eq!(game('?').mode, Mode::FullScreen(FSMode::Help));
    assert_eq!(game('z').command, None);
    assert!(game('z').done);
}

#[test]
fn keys_in_the_other_modes() {
    let quit = |key: char| on_key(Mode::FullScreen(FSMode::Quit), None, origin(), key);
    assert_eq!(quit('y').command, Some(Command::Exit));
    assert_eq!(quit('Y').command, Some(Command::Exit));
    assert_eq!(quit('n').command, Some(Command::Redraw));
    assert_eq!(quit('n').mode, Mode::Normal);
    let help = on_key(Mode::FullScreen(FSMode::Help), None, origin(), ' ');
    assert_eq!((help.mode, help.command), (Mode::Normal, Some(Command::Redraw)));
    let intro = on_key(Mode::FullScreen(FSMode::Intro), None, origin(), 'y');
    assert_eq!((intro.mode, intro.command), (Mode::Normal, Some(Command::Redraw)));

    let equip = |key: char| on_key(Mode::Inventory(InvMode::Equip), None, origin(), key);
    assert_eq!(equip('c').command, Some(Command::Game(Action::Equip('c'))));
    assert_eq!(equip('Z').command, Some(Command::Game(Action::Equip('Z'))));
    assert_eq!(equip('c').mode, Mode::Inventory(InvMode::Equip));
    assert!(!equip('1').done);
    assert_eq!(equip('1').command, None);
    assert_eq!(equip('\x1b').mode, Mode::Normal);
    let view = |key: char| on_key(Mode::Inventory(InvMode::View), None, origin(), key);
    assert!(!view('c').done);
    assert_eq!(view('c').command, None);
    assert_eq!(view('\x1b').mode, Mode::Normal);
    assert!(view('\x1b').done);
}

#[test]
fn keys_move_the_examined_position() {
    let at = Position::new(Coordinate::new(2, 2), Direction::YZ);
    let examine = |key: char| on_key(Mode::Examine, Some(at), origin(), key);
    assert_eq!(examine('h').examine_pos, Some(Position::new(Coordinate::new(2, 2), Direction::YX)));
    assert_eq!(examine('l').examine_pos, Some(Position::new(Coordinate::new(2, 2), Direction::XZ)));
    assert_eq!(examine('k').examine_pos, Some(Position::new(Coordinate::new(2, 3), Direction::YZ)));
    assert_eq!(examine('j').examine_pos, Some(Position::new(Coordinate::new(2, 1), Direction::YZ)));
    assert_eq!(examine('K').examine_pos, Some(Position::new(Coordinate::new(2, 7), Direction::YZ)));
    assert_eq!(examine('J').examine_pos, Some(Position::new(Coordinate::new(2, -3), Direction::YZ)));
    assert_eq!(examine('k').command, Some(Command::Redraw));
    assert_eq!(examine('k').mode, Mode::Examine);
    assert_eq!(examine('x').mode, Mode::Normal);
    assert_eq!(examine('q').examine_pos, None);
    assert_eq!(examine('z').command, None);
    assert_eq!(examine('z').examine_pos, Some(at));
    assert_eq!(on_key(Mode::Normal, None, origin(), 'k').examine_pos, None);
    assert_eq!(on_key(Mode::Normal, Some(at), origin(), 'k').examine_pos, Some(at));
    assert_eq!(on_key(Mode::Examine, None, origin(), 'z').examine_pos, None);
    // Without an examined position the player's own is the start.
    let fresh = on_key(Mode::Examine, None, origin(), 'k');
    assert_eq!(fresh.examine_pos, Some(Position::new(Coordinate::new(1, -1), Direction::XY)));
    // The examined position stays in the world.
    let edge = Position::new(Coordinate::new(16_777_214, 0), Direction::XZ);
    assert_eq!(march(edge, Direction::XZ, 5).coord, Coordinate::new(16_777_216, 0));
    assert_eq!(march(edge, Direction::ZX, 5).coord, Coordinate::new(16_777_209, 0));
    assert_eq!(march(edge, Direction::ZX, 0), edge);
}

#[test]
fn cells_are_described_by_what_is_known_of_them() {
    let mut map = TileMap::new();
    let c = |x: i32| Coordinate::new(x, 0);
    for x in 0..8 {
        map.set(c(x), Tile::new(Kind::Empty));
    }
    map.set(c(1), Tile::new(Kind::Wall));
    map.set(c(2), Tile::new(Kind::Door(false)));
    map.set(c(3), Tile { kind: Kind::Empty, light: 0, area: Some(Area { center: c(3) }) });
    map.set(c(7), Tile::new(Kind::Tree));
    let mut items = CoordMap::new();
    items.insert(c(4), AnyItem::Weapon(Weapon::new()));
    items.insert(c(5), AnyItem::Weapon(Weapon::new()));
    let mut loc = Location::new(map, items);
    for x in 0..8 {
        loc.light_map.insert(c(x), 3);
    }
    let mut hero = Actor::new(Race::Human, Position::new(c(0), Direction::XZ));
    hero.set_player();
    let sight: Vec<Coordinate> = (0..8).collect::<Vec<i32>>().iter().map(|x| c(*x)).collect();
    let rat = loc.spawn(Actor::new(Race::Rat, Position::new(c(5), Direction::XZ)), &vec![]);
    let id = loc.spawn_player(hero, &sight);
    let viewer = &loc.actors_byid[&id];
    assert_eq!(tile_description(Coordinate::new(0, 5), viewer, &loc), "Unknown");
    assert_eq!(tile_description(c(0), viewer, &loc), "Yourself");
    assert_eq!(tile_description(c(1), viewer, &loc), "a wall");
    assert_eq!(tile_description(c(2), viewer, &loc), "door");
    assert_eq!(tile_description(c(3), viewer, &loc), "room");
    assert_eq!(tile_description(c(4), viewer, &loc), "sword");
    assert_eq!(tile_description(c(5), viewer, &loc), "Rat");
    assert_eq!(tile_description(c(6), viewer, &loc), "nothing");
    assert_eq!(tile_description(c(7), viewer, &loc), "Indescribable");
    // What is known but out of sight shows no actor.
    let mut blind = loc.remove(id).unwrap();
    blind.visible = hexdungeon::coordmap::CoordSet::new();
    assert_eq!(tile_description(c(5), &blind, &loc), "sword");
    blind.hp = 0;
    assert_eq!(tile_description(c(5), &blind, &loc), "Rat");
    assert_eq!(loc.actors_byid[&rat].description(), "Rat");
}

use hexdungeon::ui::cell_look;
use hexdungeon::ui::describe_tile;
use hexdungeon::ui::glyph_to_str;
use hexdungeon::ui::CellFacts;
use hexdungeon::ui::Glyph;

fn plain() -> CellFacts {
    CellFacts {
        proper: true,
        visible: true,
        known: true,
        kind: Kind::Empty,
        tile_light: 0,
        light: 5,
        actor: None,
        item: None,
        examining: false,
        center: false,
        head: false,
        ahead_of: None,
    }
}

#[test]
fn cells_look_by_what_is_on_them() {
    let l = cell_look(plain());
    assert_eq!((l.fg, l.bg, l.glyph, l.bold, l.draw), (248, 255, Glyph::Floor, false, true));
    let l = cell_look(CellFacts { light: 2, ..plain() });
    assert_eq!((l.fg, l.bg), (243, 253));
    let l = cell_look(CellFacts { light: 0, ..plain() });
    assert_eq!((l.fg, l.bg), (236, 237));
    let l = cell_look(CellFacts { visible: false, known: false, ..plain() });
    assert_eq!((l.fg, l.bg, l.draw), (236, 237, false));
    let l = cell_look(CellFacts { proper: false, ..plain() });
    assert_eq!(l.glyph, Glyph::Blank);
    let l = cell_look(CellFacts { kind: Kind::Wall, ..plain() });
    assert_eq!((l.fg, l.bg, l.glyph), (16, 245, Glyph::Wall));
    let l = cell_look(CellFacts { kind: Kind::Door(false), light: 1, ..plain() });
    assert_eq!((l.fg, l.bg, l.glyph), (232, 239, Glyph::Door(false)));
    let l = cell_look(CellFacts { kind: Kind::Tree, ..plain() });
    assert_eq!((l.fg, l.bg, l.glyph), (28, 255, Glyph::Tree));
    let l = cell_look(CellFacts { kind: Kind::Stairs, ..plain() });
    assert_eq!(l.glyph, Glyph::Stairs);
    let l = cell_look(CellFacts { actor: Some((true, 0)), item: Some(Type::Armor), ..plain() });
    assert_eq!((l.fg, l.bg, l.glyph), (19, 255, Glyph::Actor));
    let l = cell_look(CellFacts { actor: Some((false, 4)), ..plain() });
    assert_eq!((l.fg, l.bg, l.glyph), (124, 227, Glyph::Actor));
    let l = cell_look(CellFacts { actor: Some((false, 4)), visible: false, ..plain() });
    assert_eq!((l.fg, l.bg, l.glyph), (236, 237, Glyph::Floor));
    let l = cell_look(CellFacts { item: Some(Type::Armor), ..plain() });
    assert_eq!((l.fg, l.bg, l.glyph), (16, 255, Glyph::Thing(Type::Armor)));
    let l = cell_look(CellFacts { tile_light: 3, ..plain() });
    assert_eq!((l.fg, l.bg), (227, 255));
}

#[test]
fn marks_on_cells() {
    let l = cell_look(CellFacts { ahead_of: Some(true), ..plain() });
    assert_eq!((l.fg, l.bg, l.bold), (20, 255, true));
    let l = cell_look(CellFacts { ahead_of: Some(false), actor: Some((false, 0)), ..plain() });
    assert_eq!((l.fg, l.bg, l.bold, l.glyph), (124, 196, true, Glyph::Actor));
    let l = cell_look(CellFacts { ahead_of: Some(false), known: false, visible: false, ..plain() });
    assert_eq!((l.bg, l.bold, l.glyph, l.draw), (196, true, Glyph::Blank, true));
    let l = cell_look(CellFacts { ahead_of: Some(true), proper: false, ..plain() });
    assert!(!l.bold);
    let l = cell_look(CellFacts { examining: true, center: true, known: false, ..plain() });
    assert_eq!((l.fg, l.glyph, l.draw), (248, Glyph::Actor, true));
    let l = cell_look(CellFacts { examining: true, head: true, ..plain() });
    assert_eq!((l.fg, l.bold), (20, true));
    let l = cell_look(CellFacts { examining: true, head: true, known: false, ..plain() });
    assert_eq!((l.bg, l.glyph, l.draw, l.bold), (20, Glyph::Blank, true, true));
    let l = cell_look(CellFacts { examining: true, ahead_of: Some(true), ..plain() });
    assert!(!l.bold);
    assert_eq!(glyph_to_str(Glyph::Actor, "."), "@");
    assert_eq!(glyph_to_str(Glyph::Floor, "."), ".");
    assert_eq!(glyph_to_str(Glyph::Blank, "."), " ");
    assert_eq!(glyph_to_str(Glyph::Wall, "."), "#");
    assert_eq!(glyph_to_str(Glyph::Door(true), "."), "_");
    assert_eq!(glyph_to_str(Glyph::Door(false), "."), "+");
    assert_eq!(glyph_to_str(Glyph::Tree, "."), "T");
    assert_eq!(glyph_to_str(Glyph::Stairs, "."), ">");
    assert_eq!(glyph_to_str(Glyph::Thing(Type::Weapon), "."), ")");
}

#[test]
fn cells_are_described_from_plain_facts() {
    let sword = Some(AnyItem::Weapon(Weapon::new()));
    assert_eq!(describe_tile(false, Kind::Wall, None, None, false), "Unknown");
    assert_eq!(describe_tile(true, Kind::Wall, Some((true, Race::Elf)), sword, true), "a wall");
    assert_eq!(describe_tile(true, Kind::Door(true), None, None, false), "door");
    assert_eq!(describe_tile(true, Kind::Empty, Some((true, Race::Elf)), sword, true), "Yourself");
    assert_eq!(describe_tile(true, Kind::Empty, Some((false, Race::Elf)), sword, true), "Elf");
    assert_eq!(describe_tile(true, Kind::Empty, None, sword, true), "sword");
    assert_eq!(describe_tile(true, Kind::Empty, None, None, true), "room");
    assert_eq!(describe_tile(true, Kind::Empty, None, None, false), "nothing");
    assert_eq!(describe_tile(true, Kind::Stairs, None, None, false), "Indescribable");
}

use hexdungeon::ui::gap_facts;
use hexdungeon::ui::Side;

#[test]
fn a_gap_takes_after_the_cells_beside_it() {
    let floor = Side { seen: true, known: true, kind: Kind::Empty, light: 4 };
    let wall = Side { seen: false, known: true, kind: Kind::Wall, light: 1 };
    let door = Side { seen: true, known: false, kind: Kind::Door(false), light: u32::MAX };
    let f = gap_facts(floor, wall, false, false);
    assert_eq!((f.proper, f.visible, f.known, f.kind, f.light), (false, false, true, Kind::Wall, 2));
    let f = gap_facts(wall, floor, true, true);
    assert_eq!((f.visible, f.known, f.kind, f.examining), (true, true, Kind::Wall, true));
    let f = gap_facts(wall, door, false, false);
    assert_eq!((f.known, f.kind, f.light), (false, Kind::Door(false), 2147483648));
    let f = gap_facts(floor, floor, false, false);
    assert_eq!((f.visible, f.kind, f.light, f.actor, f.item), (true, Kind::Empty, 4, None, None));
    assert_eq!(cell_look(f).glyph, Glyph::Blank);
}

#[test]
fn a_known_pair_needs_no_free_number() {
    let mut a = Allocator::new();
    assert_eq!(turn_to_color(7, 7, &mut a), Some((1, true)));
    let mut fg: u8 = 0;
    let mut bg: u8 = 0;
    while a.upcoming() < i16::MAX {
        a.get(fg, bg);
        if bg == 200 {
            bg = 0;
            fg += 1;
        } else {
            bg += 1;
        }
    }
    assert_eq!(a.upcoming(), i16::MAX);
    assert_eq!(turn_to_color(9, 9, &mut a), Some((1, false)));
    assert_eq!(turn_to_color(900, 9, &mut a), None);
    assert_eq!(a.upcoming(), i16::MAX);
}
