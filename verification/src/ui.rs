//! The parts of the terminal interface that are plain computation.

use vstd::prelude::*;
use std::collections::HashMap;
use crate::action::Action;
use crate::actor::Actor;
use crate::actor::ActorView;
use crate::hex::Angle;
use crate::hex::Coordinate;
use crate::hex::Direction;
use crate::hex::Position;
use crate::item::AnyItem;
use crate::item::Item;
use crate::item::Type;
use crate::location::Location;
use crate::location::LocationView;
use crate::stats::Race;
use crate::tile::Kind;
use crate::tile::Tile;

verus! {

/// The glyph that stands for an item of class `t` on the map.
pub open spec fn glyph(t: Type) -> Seq<char> {
    match t {
        Type::Weapon => ")"@,
        Type::Armor => "["@,
        Type::Potion => "!"@,
    }
}

/// The glyph that stands for an item of class `t` on the map.
pub fn item_to_str(t: Type) -> (s: &'static str)
    ensures
        s@ == glyph(t),
{
    match t {
        Type::Weapon => ")",
        Type::Armor => "[",
        Type::Potion => "!",
    }
}

/// One line of the message log.
pub struct LogEntry {
    /// The turn in which the line was written.
    pub turn: u64,
    /// The line.
    pub text: String,
}

/// The key under which the allocator files the pair of a foreground and a
/// background colour.
pub open spec fn pair_key(fg: u8, bg: u8) -> u16 {
    (fg * 256 + bg) as u16
}

/// Hands out the numbers of colour pairs, one for each combination of a
/// foreground and a background colour that was ever asked for.
pub struct Allocator {
    map: HashMap<u16, i16>,
    cur: i16,
}

impl Allocator {
    /// The pairs handed out so far, by foreground and background colour.
    pub closed spec fn pairs(&self) -> Map<(u8, u8), i16> {
        Map::new(
            |k: (u8, u8)| self.map@.contains_key(pair_key(k.0, k.1)),
            |k: (u8, u8)| self.map@[pair_key(k.0, k.1)],
        )
    }

    /// The number that the next new combination gets.
    pub closed spec fn next(&self) -> i16 {
        self.cur
    }

    /// An allocator that has handed out nothing; pair 0 stays reserved.
    pub fn new() -> (a: Allocator)
        ensures
            a.pairs() == Map::<(u8, u8), i16>::empty(),
            a.next() == 1,
    {
        let a = Allocator { cur: 1i16, map: HashMap::new() };
        assert(a.pairs() =~= Map::<(u8, u8), i16>::empty());
        a
    }

    /// The number that the next new combination gets.
    pub fn upcoming(&self) -> (n: i16)
        ensures
            n == self.next(),
    {
        self.cur
    }

    /// The pair of `fg` on `bg`, if it was handed out before.
    pub fn known(&self, fg: u8, bg: u8) -> (r: Option<i16>)
        ensures
            r == if self.pairs().contains_key((fg, bg)) {
                Some(self.pairs()[(fg, bg)])
            } else {
                None
            },
    {
        let key: u16 = fg as u16 * 256 + bg as u16;
        match self.map.get(&key) {
            Some(p) => Some(*p),
            None => None,
        }
    }

    /// The pair of `fg` on `bg`.  A combination that is new gets the next
    /// free number; the second component tells whether that happened, so
    /// that the caller can register the pair with the terminal.
    pub fn get(&mut self, fg: u8, bg: u8) -> (r: (i16, bool))
        requires
            old(self).pairs().contains_key((fg, bg)) || old(self).next() < i16::MAX,
        ensures
            r.1 == !old(self).pairs().contains_key((fg, bg)),
            r.1 ==> r.0 == old(self).next() && final(self).next() == old(self).next() + 1
                && final(self).pairs() == old(self).pairs().insert((fg, bg), r.0),
            !r.1 ==> r.0 == old(self).pairs()[(fg, bg)] && final(self).next() == old(
                self,
            ).next() && final(self).pairs() == old(self).pairs(),
    {
        let key: u16 = fg as u16 * 256 + bg as u16;
        let found: Option<i16> = match self.map.get(&key) {
            Some(p) => Some(*p),
            None => None,
        };
        match found {
            Some(p) => (p, false),
            None => {
                let ret = self.cur;
                self.map.insert(key, ret);
                self.cur = self.cur + 1;
                proof {
                    assert forall|k: (u8, u8)| pair_key(k.0, k.1) == key implies k == (fg, bg) by {
                        assert(k.0 * 256 + k.1 == fg * 256 + bg);
                    }
                    assert(self.pairs() =~= old(self).pairs().insert((fg, bg), ret));
                }
                (ret, true)
            },
        }
    }
}

/// The background colour of the panels.
pub const BACKGROUND_BG: u8 = 233;

/// The colour of a log line of the tick that is running.
pub const LOG_1_FG: u8 = 15;

/// The colour of a log line up to three ticks old.
pub const LOG_2_FG: u8 = 252;

/// The colour of a log line up to fifteen ticks old.
pub const LOG_3_FG: u8 = 248;

/// The colour of a log line up to thirty-one ticks old.
pub const LOG_4_FG: u8 = 244;

/// The colour of a log line up to sixty-three ticks old.
pub const LOG_5_FG: u8 = 240;

/// The colour in which a log line written in the tick `then` shows in the
/// tick `now`: the older the line, the darker; none for a line of
/// sixty-four ticks or more.
pub open spec fn fades_to(now: u64, then: u64) -> Option<u8> {
    let age: int = if now >= then {
        now - then
    } else {
        0
    };
    if age < 1 {
        Some(LOG_1_FG)
    } else if age < 4 {
        Some(LOG_2_FG)
    } else if age < 16 {
        Some(LOG_3_FG)
    } else if age < 32 {
        Some(LOG_4_FG)
    } else if age < 64 {
        Some(LOG_5_FG)
    } else {
        None
    }
}

/// The colour in which a log line written in the tick `then` shows in the
/// tick `now`.
pub fn fade(now: u64, then: u64) -> (fg: Option<u8>)
    ensures
        fg == fades_to(now, then),
{
    let age: u64 = if now >= then {
        now - then
    } else {
        0
    };
    if age < 1 {
        Some(LOG_1_FG)
    } else if age < 4 {
        Some(LOG_2_FG)
    } else if age < 16 {
        Some(LOG_3_FG)
    } else if age < 32 {
        Some(LOG_4_FG)
    } else if age < 64 {
        Some(LOG_5_FG)
    } else {
        None
    }
}

/// The colour pair in which a log line written in the tick `then` shows
/// in the tick `now`, and whether the pair is new to the allocator; none
/// for a line that has faded away.  Where the pair is new, the allocator
/// has to have a number left for it.
pub fn turn_to_color(now: u64, then: u64, calloc: &mut Allocator) -> (r: Option<(i16, bool)>)
    requires
        fades_to(now, then) matches Some(fg) ==> old(calloc).pairs().contains_key(
            (fg, BACKGROUND_BG),
        ) || old(calloc).next() < i16::MAX,
    ensures
        match fades_to(now, then) {
            Some(fg) => r matches Some(pair) && {
                let before = old(calloc).pairs();
                let after = final(calloc).pairs();
                &&& pair.1 == !before.contains_key((fg, BACKGROUND_BG))
                &&& pair.1 ==> pair.0 == old(calloc).next() && after == before.insert(
                    (fg, BACKGROUND_BG),
                    pair.0,
                )
                &&& !pair.1 ==> pair.0 == before[(fg, BACKGROUND_BG)] && after == before
            },
            None => {
                &&& r is None
                &&& final(calloc).pairs() == old(calloc).pairs()
                &&& final(calloc).next() == old(calloc).next()
            },
        },
{
    match fade(now, then) {
        Some(fg) => Some(calloc.get(fg, BACKGROUND_BG)),
        None => None,
    }
}

/// How brightly a cell is drawn.
#[derive(Copy, Clone, PartialEq, Eq, Structural, Debug)]
pub enum Shade {
    /// In full light.
    Lit,
    /// Barely lit.
    Dim,
    /// Out of sight, or in the dark.
    Dark,
}

/// How brightly a cell is drawn that is visible or not, with the light
/// `light` on it: dark where it is out of sight or unlit, dim under a
/// light below 3, else lit.
pub open spec fn shaded(visible: bool, light: u32) -> Shade {
    if !visible || light == 0 {
        Shade::Dark
    } else if light < 3 {
        Shade::Dim
    } else {
        Shade::Lit
    }
}

/// How brightly a cell is drawn that is visible or not, with the light
/// `light` on it.
pub fn shade(visible: bool, light: u32) -> (s: Shade)
    ensures
        s == shaded(visible, light),
{
    if !visible || light == 0 {
        Shade::Dark
    } else if light < 3 {
        Shade::Dim
    } else {
        Shade::Lit
    }
}

/// The number of cells, of a bar `width` cells wide that stands for
/// `max`, that stand for `value`; a negative value counts as 0, and a
/// maximum below 1 as 1.
pub open spec fn bar_part(value: i32, max: i32, width: u32) -> int {
    let v: int = if value > 0 { value as int } else { 0 };
    let m: int = if max > 1 { max as int } else { 1 };
    v * width / m
}

/// The number of cells, of a bar `width` cells wide that stands for
/// `max`, that stand for `value`.
pub fn bar_width(value: i32, max: i32, width: u32) -> (w: u64)
    ensures
        w == bar_part(value, max, width),
{
    let v: u64 = if value > 0 { value as u64 } else { 0 };
    let m: u64 = if max > 1 { max as u64 } else { 1 };
    assert(v * width <= 0x7fff_ffff * 0xffff_ffff) by (nonlinear_arith)
        requires
            0 <= v <= 0x7fff_ffff,
            0 <= width <= 0xffff_ffff,
    ;
    v * (width as u64) / m
}

/// What one cell of a bar shows.
#[derive(Copy, Clone, PartialEq, Eq, Structural, Debug)]
pub enum BarCell {
    /// Part of the value now and before.
    Kept,
    /// Part of the value before, no longer now.
    Lost,
    /// Part of the value now, not before.
    Gained,
    /// Beyond the value.
    Empty,
}

/// What the cell `i` of a bar shows whose value takes `now` cells, and
/// took `before` cells.
pub open spec fn bar_shows(i: u64, now: u64, before: u64) -> BarCell {
    if i < now && i < before {
        BarCell::Kept
    } else if i < before {
        BarCell::Lost
    } else if i < now {
        BarCell::Gained
    } else {
        BarCell::Empty
    }
}

/// What the cell `i` of a bar shows whose value takes `now` cells, and
/// took `before` cells.
pub fn bar_cell(i: u64, now: u64, before: u64) -> (c: BarCell)
    ensures
        c == bar_shows(i, now, before),
{
    if i < now && i < before {
        BarCell::Kept
    } else if i < before {
        BarCell::Lost
    } else if i < now {
        BarCell::Gained
    } else {
        BarCell::Empty
    }
}

/// The glyph of a bar cell.
pub fn bar_glyph(c: BarCell) -> (s: &'static str)
    ensures
        s@ == match c {
            BarCell::Kept => "="@,
            BarCell::Lost => "-"@,
            BarCell::Gained => "+"@,
            BarCell::Empty => " "@,
        },
{
    match c {
        BarCell::Kept => "=",
        BarCell::Lost => "-",
        BarCell::Gained => "+",
        BarCell::Empty => " ",
    }
}

/// The names `names`, from the `from`-th on, each with a comma and a
/// blank before it.
pub open spec fn listed(names: Seq<Seq<char>>, from: int) -> Seq<char>
    decreases names.len() - from,
{
    if from < 0 || from >= names.len() {
        Seq::empty()
    } else {
        ", "@ + names[from] + listed(names, from + 1)
    }
}

/// The sentence that tells which areas have come into view: the names in
/// their order, with commas between them.
pub open spec fn sentence(names: Seq<Seq<char>>) -> Seq<char> {
    "You see: "@ + names[0] + listed(names, 1) + "."@
}

/// The names that a list of strings stands for.
pub open spec fn texts(names: Seq<String>) -> Seq<Seq<char>> {
    names.map_values(|s: String| s@)
}

/// The sentence that tells which areas have come into view; none where no
/// area has.
pub fn format_areas(names: &Vec<String>) -> (r: Option<String>)
    ensures
        match r {
            Some(s) => names@.len() > 0 && s@ == sentence(texts(names@)),
            None => names@.len() == 0,
        },
{
    if names.len() == 0 {
        return None;
    }
    let ghost all = texts(names@);
    let mut s = "You see: ".to_owned();
    s.append(names[0].as_str());
    let mut i: usize = 1;
    while i < names.len()
        invariant
            1 <= i <= names.len(),
            all == texts(names@),
            s@ + listed(all, i as int) == "You see: "@ + all[0] + listed(all, 1),
        decreases names.len() - i,
    {
        let ghost before = s@;
        s.append(", ");
        s.append(names[i].as_str());
        proof {
            assert(s@ + listed(all, i as int + 1) =~= before + listed(all, i as int));
        }
        i += 1;
    }
    s.append(".");
    proof {
        assert(listed(all, names@.len() as int) =~= Seq::<char>::empty());
        assert(s@ =~= sentence(all));
    }
    Some(s)
}

/// What the inventory screen is open for.
#[derive(Copy, Clone, PartialEq, Eq, Structural, Debug)]
pub enum InvMode {
    View,
    Equip,
}

/// Which full screen is shown.
#[derive(Copy, Clone, PartialEq, Eq, Structural, Debug)]
pub enum FSMode {
    Help,
    Intro,
    Quit,
}

/// What the interface shows and how it reads the keys.
#[derive(Copy, Clone, PartialEq, Eq, Structural, Debug)]
pub enum Mode {
    Normal,
    Examine,
    FullScreen(FSMode),
    Inventory(InvMode),
}

/// What the interface asks for after a key.
#[derive(Copy, Clone, PartialEq, Eq, Structural, Debug)]
pub enum Command {
    /// Leave the game.
    Exit,
    /// Draw the screen anew.
    Redraw,
    /// Explore on its own.
    AutoExplore,
    /// Let the player's actor do this.
    Game(Action),
}

/// What a key has led to.
#[derive(Copy, Clone, PartialEq, Eq, Structural, Debug)]
pub struct Keyed {
    /// The mode from now on.
    pub mode: Mode,
    /// The examined position from now on.
    pub examine_pos: Option<Position>,
    /// What the interface asks for, if anything.
    pub command: Option<Command>,
    /// Whether the key has been dealt with; where not, the next key is to
    /// be read at once.
    pub done: bool,
}

/// The position reached from `pos` by `n` steps in the direction `dir`,
/// heading unchanged; the steps end where the next would leave the world.
pub open spec fn marched(pos: Position, dir: Direction, n: nat) -> Position
    decreases n,
{
    if n == 0 || !pos.coord.in_world() || !pos.shifted(dir).coord.in_world() {
        pos
    } else {
        marched(pos.shifted(dir), dir, (n - 1) as nat)
    }
}

/// The position reached from `pos` by `n` steps in the direction `dir`.
pub fn march(pos: Position, dir: Direction, n: u32) -> (p: Position)
    ensures
        p == marched(pos, dir, n as nat),
{
    let mut p = pos;
    let mut left = n;
    while left > 0
        invariant
            marched(pos, dir, n as nat) == marched(p, dir, left as nat),
        decreases left,
    {
        if !p.coord.is_in_world() {
            return p;
        }
        proof {
            crate::hex::lemma_world_within_reach(p.coord, dir, dir);
        }
        let next = p.step(dir);
        if !next.coord.is_in_world() {
            return p;
        }
        p = next;
        left -= 1;
    }
    p
}

/// Whether `key` is a letter that an item can go by.
pub open spec fn is_letter(key: char) -> bool {
    ('a' <= key && key <= 'z') || ('A' <= key && key <= 'Z')
}

/// What the key `key` leads to in the mode `mode`.  `examine_pos` is the
/// position that is examined, and `origin` the position of the player's
/// actor, from which the examining starts where no position is examined
/// yet.
pub open spec fn keyed(mode: Mode, examine_pos: Option<Position>, origin: Position, key: char) -> Keyed {
    let cursor = match examine_pos {
        Some(p) => p,
        None => origin,
    };
    let stay = Keyed { mode, examine_pos, command: None, done: true };
    let redraw = Keyed { command: Some(Command::Redraw), ..stay };
    match mode {
        Mode::FullScreen(FSMode::Quit) => if key == 'y' || key == 'Y' {
            Keyed { command: Some(Command::Exit), ..stay }
        } else {
            Keyed { mode: Mode::Normal, ..redraw }
        },
        Mode::FullScreen(_) => Keyed { mode: Mode::Normal, ..redraw },
        Mode::Normal => if key == 'h' {
            Keyed { command: Some(Command::Game(Action::Turn(Angle::Left))), ..stay }
        } else if key == 'l' {
            Keyed { command: Some(Command::Game(Action::Turn(Angle::Right))), ..stay }
        } else if key == 'k' {
            Keyed { command: Some(Command::Game(Action::Move(Angle::Forward))), ..stay }
        } else if key == 'u' {
            Keyed { command: Some(Command::Game(Action::Spin(Angle::Left))), ..stay }
        } else if key == 'i' {
            Keyed { command: Some(Command::Game(Action::Spin(Angle::Right))), ..stay }
        } else if key == 'H' {
            Keyed { command: Some(Command::Game(Action::Move(Angle::Left))), ..stay }
        } else if key == 'L' {
            Keyed { command: Some(Command::Game(Action::Move(Angle::Right))), ..stay }
        } else if key == 'j' {
            Keyed { command: Some(Command::Game(Action::Move(Angle::Back))), ..stay }
        } else if key == '.' {
            Keyed { command: Some(Command::Game(Action::Wait)), ..stay }
        } else if key == ',' {
            Keyed { command: Some(Command::Game(Action::Pick)), ..stay }
        } else if key == 'o' {
            Keyed { command: Some(Command::AutoExplore), ..stay }
        } else if key == 'q' {
            Keyed { mode: Mode::FullScreen(FSMode::Quit), ..redraw }
        } else if key == 'I' {
            Keyed { mode: Mode::Inventory(InvMode::View), ..redraw }
        } else if key == 'E' {
            Keyed { mode: Mode::Inventory(InvMode::Equip), ..redraw }
        } else if key == 'x' {
            Keyed { mode: Mode::Examine, examine_pos: None, ..redraw }
        } else if key == '?' {
            Keyed { mode: Mode::FullScreen(FSMode::Help), ..redraw }
        } else {
            stay
        },
        Mode::Inventory(inv) => if key == '\x1b' {
            Keyed { mode: Mode::Normal, ..redraw }
        } else if inv == InvMode::Equip && is_letter(key) {
            Keyed { command: Some(Command::Game(Action::Equip(key))), ..stay }
        } else {
            Keyed { done: false, ..stay }
        },
        Mode::Examine => if key == 'x' || key == 'q' {
            Keyed { mode: Mode::Normal, examine_pos: None, ..redraw }
        } else if key == 'h' {
            Keyed { examine_pos: Some(cursor.turned(Angle::Left)), ..redraw }
        } else if key == 'l' {
            Keyed { examine_pos: Some(cursor.turned(Angle::Right)), ..redraw }
        } else if key == 'j' {
            Keyed {
                examine_pos: Some(marched(cursor, cursor.dir.turned(Angle::Back), 1)),
                ..redraw
            }
        } else if key == 'k' {
            Keyed { examine_pos: Some(marched(cursor, cursor.dir, 1)), ..redraw }
        } else if key == 'K' {
            Keyed { examine_pos: Some(marched(cursor, cursor.dir, 5)), ..redraw }
        } else if key == 'J' {
            Keyed {
                examine_pos: Some(marched(cursor, cursor.dir.turned(Angle::Back), 5)),
                ..redraw
            }
        } else {
            stay
        },
    }
}

/// What the key `key` leads to in the mode `mode`.  `examine_pos` is the
/// position that is examined, and `origin` the position of the player's
/// actor.
pub fn on_key(mode: Mode, examine_pos: Option<Position>, origin: Position, key: char) -> (r: Keyed)
    ensures
        r == keyed(mode, examine_pos, origin, key),
{
    let cursor = match examine_pos {
        Some(p) => p,
        None => origin,
    };
    let stay = Keyed { mode, examine_pos, command: None, done: true };
    let redraw = Keyed { mode, examine_pos, command: Some(Command::Redraw), done: true };
    match mode {
        Mode::FullScreen(fs) => {
            match fs {
                FSMode::Quit => {
                    if key == 'y' || key == 'Y' {
                        Keyed { command: Some(Command::Exit), ..stay }
                    } else {
                        Keyed { mode: Mode::Normal, ..redraw }
                    }
                },
                _ => Keyed { mode: Mode::Normal, ..redraw },
            }
        },
        Mode::Normal => {
            if key == 'h' {
                Keyed { command: Some(Command::Game(Action::Turn(Angle::Left))), ..stay }
            } else if key == 'l' {
                Keyed { command: Some(Command::Game(Action::Turn(Angle::Right))), ..stay }
            } else if key == 'k' {
                Keyed { command: Some(Command::Game(Action::Move(Angle::Forward))), ..stay }
            } else if key == 'u' {
                Keyed { command: Some(Command::Game(Action::Spin(Angle::Left))), ..stay }
            } else if key == 'i' {
                Keyed { command: Some(Command::Game(Action::Spin(Angle::Right))), ..stay }
            } else if key == 'H' {
                Keyed { command: Some(Command::Game(Action::Move(Angle::Left))), ..stay }
            } else if key == 'L' {
                Keyed { command: Some(Command::Game(Action::Move(Angle::Right))), ..stay }
            } else if key == 'j' {
                Keyed { command: Some(Command::Game(Action::Move(Angle::Back))), ..stay }
            } else if key == '.' {
                Keyed { command: Some(Command::Game(Action::Wait)), ..stay }
            } else if key == ',' {
                Keyed { command: Some(Command::Game(Action::Pick)), ..stay }
            } else if key == 'o' {
                Keyed { command: Some(Command::AutoExplore), ..stay }
            } else if key == 'q' {
                Keyed { mode: Mode::FullScreen(FSMode::Quit), ..redraw }
            } else if key == 'I' {
                Keyed { mode: Mode::Inventory(InvMode::View), ..redraw }
            } else if key == 'E' {
                Keyed { mode: Mode::Inventory(InvMode::Equip), ..redraw }
            } else if key == 'x' {
                Keyed { mode: Mode::Examine, examine_pos: None, ..redraw }
            } else if key == '?' {
                Keyed { mode: Mode::FullScreen(FSMode::Help), ..redraw }
            } else {
                stay
            }
        },
        Mode::Inventory(inv) => {
            let letter = ('a' <= key && key <= 'z') || ('A' <= key && key <= 'Z');
            let equips = match inv {
                InvMode::Equip => true,
                InvMode::View => false,
            };
            if key == '\x1b' {
                Keyed { mode: Mode::Normal, ..redraw }
            } else if equips && letter {
                Keyed { command: Some(Command::Game(Action::Equip(key))), ..stay }
            } else {
                Keyed { done: false, ..stay }
            }
        },
        Mode::Examine => {
            if key == 'x' || key == 'q' {
                Keyed { mode: Mode::Normal, examine_pos: None, ..redraw }
            } else if key == 'h' {
                Keyed { examine_pos: Some(cursor.turn(Angle::Left)), ..redraw }
            } else if key == 'l' {
                Keyed { examine_pos: Some(cursor.turn(Angle::Right)), ..redraw }
            } else if key == 'j' {
                Keyed { examine_pos: Some(march(cursor, cursor.dir.turn(Angle::Back), 1)), ..redraw }
            } else if key == 'k' {
                Keyed { examine_pos: Some(march(cursor, cursor.dir, 1)), ..redraw }
            } else if key == 'K' {
                Keyed { examine_pos: Some(march(cursor, cursor.dir, 5)), ..redraw }
            } else if key == 'J' {
                Keyed { examine_pos: Some(march(cursor, cursor.dir.turn(Angle::Back), 5)), ..redraw }
            } else {
                stay
            }
        },
    }
}

/// What is told of a cell.  `known` tells whether the observer knows the
/// cell, `kind` what stands on it, `who` the actor that the observer sees
/// on it (whether the player controls it, and its race), `item` what lies
/// on it, and `in_area` whether it is part of an area.
pub open spec fn tells(
    known: bool,
    kind: Kind,
    who: Option<(bool, Race)>,
    item: Option<AnyItem>,
    in_area: bool,
) -> Seq<char> {
    if !known {
        "Unknown"@
    } else {
        match kind {
            Kind::Wall => "a wall"@,
            Kind::Door(_) => "door"@,
            Kind::Empty => match who {
                Some((player, race)) => if player {
                    "Yourself"@
                } else {
                    race.name()
                },
                None => match item {
                    Some(i) => i.name(),
                    None => if in_area {
                        "room"@
                    } else {
                        "nothing"@
                    },
                },
            },
            _ => "Indescribable"@,
        }
    }
}

/// What is told of a cell, from what is known of it.
pub fn describe_tile(
    known: bool,
    kind: Kind,
    who: Option<(bool, Race)>,
    item: Option<AnyItem>,
    in_area: bool,
) -> (s: String)
    ensures
        s@ == tells(known, kind, who, item, in_area),
{
    if !known {
        return "Unknown".to_owned();
    }
    match kind {
        Kind::Wall => "a wall".to_owned(),
        Kind::Door(_) => "door".to_owned(),
        Kind::Empty => {
            match who {
                Some((player, race)) => {
                    if player {
                        "Yourself".to_owned()
                    } else {
                        race.description()
                    }
                },
                None => {
                    match item {
                        Some(i) => i.description(),
                        None => {
                            if in_area {
                                "room".to_owned()
                            } else {
                                "nothing".to_owned()
                            }
                        },
                    }
                },
            }
        },
        _ => "Indescribable".to_owned(),
    }
}

/// The actor that the observer `viewer` sees on the cell `c` of the
/// location `loc`: the actor of the table that occupies the cell, where
/// the observer sees the cell or is dead.
pub open spec fn shown_on(loc: LocationView, viewer: ActorView, c: Coordinate) -> Option<
    (bool, Race),
> {
    if (viewer.visible.contains(c) || viewer.is_dead()) && loc.occupant(c) is Some {
        Some((loc.actors[loc.occupant(c)->0].player, loc.actors[loc.occupant(c)->0].race))
    } else {
        None
    }
}

/// What is told of the cell `c` to the observer `viewer` in the location
/// `loc`: nothing of a cell that the observer does not know; of a known
/// cell its wall or door, else the actor on it, where the observer sees
/// the cell or is dead, else the item on it, else the room that it is
/// part of.
pub open spec fn describes(loc: LocationView, viewer: ActorView, c: Coordinate) -> Seq<char> {
    tells(
        viewer.known.contains(c),
        loc.tile(c).kind,
        shown_on(loc, viewer, c),
        if loc.items.contains_key(c) {
            Some(loc.items[c])
        } else {
            None
        },
        loc.tile(c).area is Some,
    )
}

/// What is told of the cell `coord` to the observer `viewer`.
pub fn tile_description(coord: Coordinate, viewer: &Actor, loc: &Location) -> (s: String)
    ensures
        s@ == describes(loc@, viewer@, coord),
{
    let tile = loc.tile(coord);
    let shown = viewer.sees(coord) || viewer.is_dead();
    let who: Option<(bool, Race)> = if shown {
        match loc.actors_coord_to_id.get(coord) {
            Some(id) => {
                proof {
                    crate::location::lemma_views(loc.actors_byid@, *id, loc.actors_byid@[*id]);
                }
                match loc.actors_byid.get(id) {
                    Some(a) => Some((a.is_player(), a.race)),
                    None => None,
                }
            },
            None => None,
        }
    } else {
        None
    };
    describe_tile(viewer.knows(coord), tile.kind, who, loc.item(coord), tile.area.is_some())
}

/// A colour for each of the three shades.
#[derive(Copy, Clone, PartialEq, Eq, Structural, Debug)]
pub struct Tones {
    pub lit: u8,
    pub dim: u8,
    pub dark: u8,
}

impl Tones {
    /// The colour for the shade `s`.
    pub open spec fn of(self, s: Shade) -> u8 {
        match s {
            Shade::Lit => self.lit,
            Shade::Dim => self.dim,
            Shade::Dark => self.dark,
        }
    }

    /// The colour for the shade `s`.
    pub fn pick(self, s: Shade) -> (c: u8)
        ensures
            c == self.of(s),
    {
        match s {
            Shade::Lit => self.lit,
            Shade::Dim => self.dim,
            Shade::Dark => self.dark,
        }
    }
}

/// The colours of open floor.
pub open spec fn empty_fg() -> Tones {
    Tones { lit: 248, dim: 243, dark: 236 }
}

/// The background of open floor, of actors and of trees.
pub open spec fn empty_bg() -> Tones {
    Tones { lit: 255, dim: 253, dark: 237 }
}

/// The colours of walls, doors and items.
pub open spec fn wall_fg() -> Tones {
    Tones { lit: 16, dim: 232, dark: 233 }
}

/// The background of walls and doors.
pub open spec fn wall_bg() -> Tones {
    Tones { lit: 245, dim: 239, dark: 235 }
}

/// The colours of the player's own actor.
pub open spec fn self_fg() -> Tones {
    Tones { lit: 19, dim: 18, dark: 17 }
}

/// The colours of trees.
pub open spec fn tree_fg() -> Tones {
    Tones { lit: 28, dim: 22, dark: 23 }
}

/// The colours of the other actors.
pub open spec fn enemy_fg() -> Tones {
    Tones { lit: 124, dim: 88, dark: 52 }
}

/// The colour of the examined cell.
pub const CHAR_GRAY_FG: u8 = 248;

/// The colour that marks the cell in front of the player's actor.
pub const TARGET_SELF_FG: u8 = 20;

/// The colour that marks the cell in front of another actor.
pub const TARGET_ENEMY_FG: u8 = 196;

/// The colour of a source of light.
pub const LIGHTSOURCE: u8 = 227;

/// What is drawn in a cell of the screen.
#[derive(Copy, Clone, PartialEq, Eq, Structural, Debug)]
pub enum Glyph {
    /// An actor.
    Actor,
    /// An item of the given class.
    Thing(Type),
    /// Open floor, on a cell of the grid.
    Floor,
    /// Nothing.
    Blank,
    Wall,
    /// A door, open (`true`) or closed (`false`).
    Door(bool),
    Tree,
    Stairs,
}

/// What is known of a cell of the screen when it is drawn.
#[derive(Copy, Clone, PartialEq, Eq, Debug)]
pub struct CellFacts {
    /// Whether the cell of the screen is a cell of the grid, and not the
    /// gap between two of them.
    pub proper: bool,
    /// Whether the observer sees the cell, or is dead.
    pub visible: bool,
    /// Whether the observer knows the cell.
    pub known: bool,
    /// What stands on the cell.
    pub kind: Kind,
    /// The reach of the light that the tile of the cell emits; 0 in a gap.
    pub tile_light: i32,
    /// The light on the cell.
    pub light: u32,
    /// The actor on the cell: whether the player controls it, and the
    /// reach of its light.
    pub actor: Option<(bool, u32)>,
    /// The class of the item on the cell.
    pub item: Option<Type>,
    /// Whether the interface examines cells.
    pub examining: bool,
    /// Whether the cell is the one that is examined.
    pub center: bool,
    /// Whether the cell lies in front of the one that is examined.
    pub head: bool,
    /// Whether the cell lies in front of an actor that the observer
    /// sees, and whether that actor is the observer.
    pub ahead_of: Option<bool>,
}

/// What one of the two cells beside a gap of the screen brings to it.
#[derive(Copy, Clone, PartialEq, Eq, Structural, Debug)]
pub struct Side {
    /// Whether the observer sees the cell.
    pub seen: bool,
    /// Whether the observer knows the cell.
    pub known: bool,
    /// What stands on the cell.
    pub kind: Kind,
    /// The light on the cell.
    pub light: u32,
}

/// What is known of the gap between the cells `left` and `right` of the
/// screen: it is visible where both cells are seen, or the observer is
/// dead; known where both are known; it takes after the more opaque of
/// the two, the right one where they are equally so; and its light is the
/// mean of theirs.
pub open spec fn gap_between(left: Side, right: Side, dead: bool, examining: bool) -> CellFacts {
    CellFacts {
        proper: false,
        visible: (left.seen && right.seen) || dead,
        known: left.known && right.known,
        kind: if left.kind.opacity() > right.kind.opacity() {
            left.kind
        } else {
            right.kind
        },
        tile_light: 0,
        light: ((left.light + right.light) / 2) as u32,
        actor: None,
        item: None,
        examining,
        center: false,
        head: false,
        ahead_of: None,
    }
}

/// What is known of the gap between the cells `left` and `right` of the
/// screen.
pub fn gap_facts(left: Side, right: Side, dead: bool, examining: bool) -> (f: CellFacts)
    ensures
        f == gap_between(left, right, dead, examining),
{
    let more = Tile::new(left.kind).opaqueness() > Tile::new(right.kind).opaqueness();
    let sum: u64 = left.light as u64 + right.light as u64;
    CellFacts {
        proper: false,
        visible: (left.seen && right.seen) || dead,
        known: left.known && right.known,
        kind: if more {
            left.kind
        } else {
            right.kind
        },
        tile_light: 0,
        light: (sum / 2) as u32,
        actor: None,
        item: None,
        examining,
        center: false,
        head: false,
        ahead_of: None,
    }
}

/// How a cell of the screen is drawn.
#[derive(Copy, Clone, PartialEq, Eq, Structural, Debug)]
pub struct CellLook {
    pub fg: u8,
    pub bg: u8,
    pub glyph: Glyph,
    pub bold: bool,
    /// Whether the cell is drawn at all.
    pub draw: bool,
}

/// The glyph of a cell and its colours in the three shades, before the
/// light and the marks are taken into account.
pub open spec fn base_look(f: CellFacts) -> (Tones, Tones, Glyph) {
    if f.proper && f.visible && f.actor is Some {
        (
            if f.actor matches Some(a) && a.0 {
                self_fg()
            } else {
                enemy_fg()
            },
            empty_bg(),
            Glyph::Actor,
        )
    } else if f.proper && f.visible && f.item is Some {
        (wall_fg(), empty_bg(), Glyph::Thing(f.item->0))
    } else {
        match f.kind {
            Kind::Empty => (
                empty_fg(),
                empty_bg(),
                if f.proper {
                    Glyph::Floor
                } else {
                    Glyph::Blank
                },
            ),
            Kind::Wall => (wall_fg(), wall_bg(), Glyph::Wall),
            Kind::Door(open) => (wall_fg(), wall_bg(), Glyph::Door(open)),
            Kind::Tree => (tree_fg(), empty_bg(), Glyph::Tree),
            Kind::Stairs => (empty_fg(), empty_bg(), Glyph::Stairs),
        }
    }
}

/// The look of a cell with the light taken into account: the colours of
/// its shade, and the colour of a light source on what emits light.
pub open spec fn lit_look(f: CellFacts) -> CellLook {
    let (fg, bg, glyph) = base_look(f);
    let s = shaded(f.visible, f.light);
    CellLook {
        fg: if f.visible && f.tile_light > 0 {
            LIGHTSOURCE
        } else {
            fg.of(s)
        },
        bg: if f.proper && f.visible && (f.actor matches Some(a) && a.1 > 0) {
            LIGHTSOURCE
        } else {
            bg.of(s)
        },
        glyph,
        bold: false,
        draw: f.known,
    }
}

/// How a cell of the screen is drawn: its look in the light, with the
/// marks on it.  While cells are examined, the examined cell shows as an
/// actor, and the cell in front of it is marked; else the cells in front
/// of the actors in sight are marked.  A mark on a cell that the observer
/// does not know shows as a blank in the colour of the mark.
pub open spec fn looks(f: CellFacts) -> CellLook {
    let l = lit_look(f);
    if f.examining {
        if f.proper && f.center {
            CellLook { glyph: Glyph::Actor, fg: CHAR_GRAY_FG, draw: true, ..l }
        } else if f.proper && f.head {
            if f.known {
                CellLook { bold: true, fg: TARGET_SELF_FG, ..l }
            } else {
                CellLook { bold: true, draw: true, glyph: Glyph::Blank, bg: TARGET_SELF_FG, ..l }
            }
        } else {
            l
        }
    } else if f.proper && f.ahead_of is Some {
        let mark = if f.ahead_of->0 {
            TARGET_SELF_FG
        } else {
            TARGET_ENEMY_FG
        };
        if f.known {
            if f.actor is Some {
                CellLook { bold: true, bg: mark, ..l }
            } else {
                CellLook { bold: true, fg: mark, ..l }
            }
        } else {
            CellLook { bold: true, draw: true, glyph: Glyph::Blank, bg: mark, ..l }
        }
    } else {
        l
    }
}

/// How a cell of the screen is drawn.
pub fn cell_look(f: CellFacts) -> (l: CellLook)
    ensures
        l == looks(f),
{
    let has_actor = f.actor.is_some();
    let (fg, bg, glyph) = if f.proper && f.visible && has_actor {
        let own = match f.actor {
            Some((player, _)) => player,
            None => false,
        };
        (
            if own {
                Tones { lit: 19, dim: 18, dark: 17 }
            } else {
                Tones { lit: 124, dim: 88, dark: 52 }
            },
            Tones { lit: 255, dim: 253, dark: 237 },
            Glyph::Actor,
        )
    } else if f.proper && f.visible && f.item.is_some() {
        let class = match f.item {
            Some(t) => t,
            None => Type::Weapon,
        };
        (
            Tones { lit: 16, dim: 232, dark: 233 },
            Tones { lit: 255, dim: 253, dark: 237 },
            Glyph::Thing(class),
        )
    } else {
        match f.kind {
            Kind::Empty => (
                Tones { lit: 248, dim: 243, dark: 236 },
                Tones { lit: 255, dim: 253, dark: 237 },
                if f.proper {
                    Glyph::Floor
                } else {
                    Glyph::Blank
                },
            ),
            Kind::Wall => (
                Tones { lit: 16, dim: 232, dark: 233 },
                Tones { lit: 245, dim: 239, dark: 235 },
                Glyph::Wall,
            ),
            Kind::Door(open) => (
                Tones { lit: 16, dim: 232, dark: 233 },
                Tones { lit: 245, dim: 239, dark: 235 },
                Glyph::Door(open),
            ),
            Kind::Tree => (
                Tones { lit: 28, dim: 22, dark: 23 },
                Tones { lit: 255, dim: 253, dark: 237 },
                Glyph::Tree,
            ),
            Kind::Stairs => (
                Tones { lit: 248, dim: 243, dark: 236 },
                Tones { lit: 255, dim: 253, dark: 237 },
                Glyph::Stairs,
            ),
        }
    };
    let s = shade(f.visible, f.light);
    let glows = match f.actor {
        Some((_, light)) => light > 0,
        None => false,
    };
    let mut l = CellLook {
        fg: if f.visible && f.tile_light > 0 {
            LIGHTSOURCE
        } else {
            fg.pick(s)
        },
        bg: if f.proper && f.visible && glows {
            LIGHTSOURCE
        } else {
            bg.pick(s)
        },
        glyph,
        bold: false,
        draw: f.known,
    };
    if f.examining {
        if f.proper && f.center {
            l.glyph = Glyph::Actor;
            l.fg = CHAR_GRAY_FG;
            l.draw = true;
        } else if f.proper && f.head {
            l.bold = true;
            if f.known {
                l.fg = TARGET_SELF_FG;
            } else {
                l.draw = true;
                l.glyph = Glyph::Blank;
                l.bg = TARGET_SELF_FG;
            }
        }
    } else if f.proper {
        match f.ahead_of {
            Some(own) => {
                let mark = if own {
                    TARGET_SELF_FG
                } else {
                    TARGET_ENEMY_FG
                };
                l.bold = true;
                if f.known {
                    if has_actor {
                        l.bg = mark;
                    } else {
                        l.fg = mark;
                    }
                } else {
                    l.draw = true;
                    l.glyph = Glyph::Blank;
                    l.bg = mark;
                }
            },
            None => {},
        }
    }
    l
}

/// The text that stands for the glyph `g`; `dot` is what open floor
/// shows as.
pub fn glyph_to_str(g: Glyph, dot: &'static str) -> (s: &'static str)
    ensures
        s@ == match g {
            Glyph::Actor => "@"@,
            Glyph::Thing(t) => glyph(t),
            Glyph::Floor => dot@,
            Glyph::Blank => " "@,
            Glyph::Wall => "#"@,
            Glyph::Door(open) => if open {
                "_"@
            } else {
                "+"@
            },
            Glyph::Tree => "T"@,
            Glyph::Stairs => ">"@,
        },
{
    match g {
        Glyph::Actor => "@",
        Glyph::Thing(t) => item_to_str(t),
        Glyph::Floor => dot,
        Glyph::Blank => " ",
        Glyph::Wall => "#",
        Glyph::Door(open) => if open {
            "_"
        } else {
            "+"
        },
        Glyph::Tree => "T",
        Glyph::Stairs => ">",
    }
}

} // verus!
