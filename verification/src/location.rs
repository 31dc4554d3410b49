//! The state of one level: its terrain, its actors and what lies on its
//! floor.

use vstd::prelude::*;
use std::collections::HashMap;
use std::collections::HashSet;
use crate::actor::Actor;
use crate::actor::ActorView;
use crate::actor::Id;
use crate::coordmap::CoordMap;
use crate::hex::lemma_world_within_reach;
use crate::hex::Angle;
use crate::hex::Coordinate;
use crate::item::AnyItem;
use crate::sight::best_leak;
use crate::sight::leak;
use crate::sight::light_on;
use crate::sight::light_seen;
use crate::tile::tile_on;
use crate::tile::Tile;
use crate::tile::TileMap;
use crate::tile::BLOCK_LIMIT;

verus! {

/// One level of the dungeon.
pub struct Location {
    /// The actors, by their numbers.
    pub actors_byid: HashMap<Id, Actor>,
    /// The number of the actor on each occupied cell.  A cell that an
    /// actor left stays occupied until the end of the tick.
    pub actors_coord_to_id: CoordMap<Id>,
    /// The numbers of the actors that have died and were taken away.
    pub actors_dead: HashSet<Id>,
    /// The number that the next actor gets.
    pub actors_counter: u32,
    /// The terrain.
    pub map: TileMap,
    /// The items on the floor, at most one on a cell.
    pub items: CoordMap<AnyItem>,
    /// The light on each lit cell.
    pub light_map: CoordMap<u32>,
    /// The depth of the level.
    pub level: i32,
    /// The number of ticks that have ended.
    pub turn: u64,
    /// The number of the actor that the player controls.
    pub player_id: Option<Id>,
}

/// The mathematical content of a [`Location`].
pub struct LocationView {
    pub actors: Map<Id, ActorView>,
    pub index: Map<Coordinate, Id>,
    pub dead: Set<Id>,
    pub counter: u32,
    pub map: Map<Coordinate, Tile>,
    /// The cells of the terrain that were set, in the order in which they
    /// were first set.
    pub cells: Seq<Coordinate>,
    pub items: Map<Coordinate, AnyItem>,
    pub light_map: Map<Coordinate, u32>,
    pub level: i32,
    pub turn: u64,
    pub player_id: Option<Id>,
}

/// The mathematical contents of the actors of a table.
pub open spec fn views(m: Map<Id, Actor>) -> Map<Id, ActorView> {
    m.map_values(|a: Actor| a@)
}

/// Putting an actor into a table puts its content into the table's
/// content, and taking one out takes its content out.
pub proof fn lemma_views(m: Map<Id, Actor>, id: Id, a: Actor)
    ensures
        views(m.insert(id, a)) == views(m).insert(id, a@),
        views(m.remove(id)) == views(m).remove(id),
        views(m).dom() == m.dom(),
        forall|i: Id| m.contains_key(i) ==> #[trigger] views(m)[i] == m[i]@,
{
    assert(views(m.insert(id, a)) =~= views(m).insert(id, a@));
    assert(views(m.remove(id)) =~= views(m).remove(id));
    assert(views(m).dom() =~= m.dom());
}

impl View for Location {
    type V = LocationView;

    open spec fn view(&self) -> LocationView {
        LocationView {
            actors: views(self.actors_byid@),
            index: self.actors_coord_to_id@,
            dead: self.actors_dead@,
            counter: self.actors_counter,
            map: self.map@,
            cells: self.map.cells(),
            items: self.items@,
            light_map: self.light_map@,
            level: self.level,
            turn: self.turn,
            player_id: self.player_id,
        }
    }
}

impl LocationView {
    /// What holds of a location at every moment: every actor of the table
    /// stands within the world and is found through the cell it stands
    /// on; the numbers of the actors, and of the dead, lie below the
    /// counter; no actor of the table is counted among the dead; the
    /// terrain lies within the world.
    pub open spec fn wf(self) -> bool {
        &&& forall|id: Id| #[trigger]
            self.actors.contains_key(id) ==> {
                &&& id < self.counter
                &&& self.actors[id].pos.coord.in_world()
                &&& self.index.contains_key(self.actors[id].pos.coord)
                &&& self.index[self.actors[id].pos.coord] == id
            }
        &&& forall|id: Id| #[trigger]
            self.dead.contains(id) ==> id < self.counter && !self.actors.contains_key(id)
        &&& forall|c: Coordinate| #[trigger] self.map.contains_key(c) ==> c.in_world()
    }

    /// What holds of a location between two ticks, besides `wf`: every
    /// occupied cell is the cell of an actor of the table, and every
    /// actor of the table is alive.
    pub open spec fn settled(self) -> bool {
        &&& forall|c: Coordinate| #[trigger]
            self.index.contains_key(c) ==> self.actors.contains_key(self.index[c])
                && self.actors[self.index[c]].pos.coord == c
        &&& forall|id: Id| #[trigger] self.actors.contains_key(id) ==> !self.actors[id].is_dead()
    }

    /// The tile of the cell `c`.
    pub open spec fn tile(self, c: Coordinate) -> Tile {
        tile_on(self.map, c)
    }

    /// Whether an actor stands on the cell `c`, or stood on it in this
    /// tick.
    pub open spec fn occupied(self, c: Coordinate) -> bool {
        self.index.contains_key(c)
    }

    /// Whether an actor can step onto the cell `c`.
    pub open spec fn passable(self, c: Coordinate) -> bool {
        !self.occupied(c) && self.tile(c).kind.walkable()
    }

    /// Whether the `j`-th cell of `floor` can be walked to from the cell
    /// `start` over cells of `floor` that come before it: it lies within
    /// the world and an actor can stand on it, and it is `start` itself or
    /// the neighbour of an earlier cell of `floor` that can be walked to.
    pub open spec fn walked(self, start: Coordinate, floor: Seq<Coordinate>, j: int) -> bool
        decreases j, 1int, 0int,
    {
        &&& 0 <= j < floor.len()
        &&& floor[j].in_world()
        &&& self.tile(floor[j]).kind.walkable()
        &&& (floor[j] == start || self.beside(start, floor, j, 0))
    }

    /// Whether the `j`-th cell of `floor` is the neighbour of one of the
    /// cells of `floor` from the `from`-th up to, and without, the `j`-th
    /// that can be walked to from `start`.
    pub open spec fn beside(
        self,
        start: Coordinate,
        floor: Seq<Coordinate>,
        j: int,
        from: int,
    ) -> bool
        decreases j, 0int, j - from,
    {
        &&& 0 <= from < j < floor.len()
        &&& ((self.walked(start, floor, from) && floor[from].steps_to(floor[j]) == 1)
            || self.beside(start, floor, j, from + 1))
    }

    /// Whether an item that falls on the cell `start` can be put down on
    /// the `j`-th cell of `floor`: the cell can be walked to from `start`,
    /// and holds no item.
    pub open spec fn lands(self, start: Coordinate, floor: Seq<Coordinate>, j: int) -> bool {
        self.walked(start, floor, j) && !self.items.contains_key(floor[j])
    }

    /// The index of the first cell of `floor`, from the index `from` on,
    /// on which an item that falls on `start` can be put down; the length
    /// of `floor` where there is none.
    pub open spec fn landing(self, start: Coordinate, floor: Seq<Coordinate>, from: int) -> int
        decreases floor.len() - from,
    {
        if from >= floor.len() {
            floor.len() as int
        } else if from >= 0 && self.lands(start, floor, from) {
            from
        } else {
            self.landing(start, floor, from + 1)
        }
    }

    /// The location with `item`, which falls on the cell `start`, put down
    /// on the first cell of `floor` on which it can be put down; the
    /// location unchanged, and the item lost, where there is none.
    pub open spec fn with_dropped(
        self,
        start: Coordinate,
        item: AnyItem,
        floor: Seq<Coordinate>,
    ) -> LocationView {
        let n = self.landing(start, floor, 0);
        if n < floor.len() {
            LocationView { items: self.items.insert(floor[n], item), ..self }
        } else {
            self
        }
    }

    /// The location with the actor `a` under the number `id`.
    pub open spec fn with_actor(self, id: Id, a: ActorView) -> LocationView {
        LocationView { actors: self.actors.insert(id, a), ..self }
    }
}

impl Location {
    /// A level with the terrain `map` and the items `items` on its floor,
    /// and no actor yet.
    pub fn new(map: TileMap, items: CoordMap<AnyItem>) -> (loc: Location)
        ensures
            loc@ == (LocationView {
                actors: Map::empty(),
                index: Map::empty(),
                dead: Set::empty(),
                counter: 0,
                map: map@,
                cells: map.cells(),
                items: items@,
                light_map: Map::empty(),
                level: 0,
                turn: 0,
                player_id: None,
            }),
            loc@.wf(),
            loc@.settled(),
    {
        let n = map.len();
        let loc = Location {
            actors_byid: HashMap::new(),
            actors_coord_to_id: CoordMap::new(),
            actors_counter: 0,
            actors_dead: HashSet::new(),
            items,
            map,
            level: 0,
            turn: 0,
            light_map: CoordMap::new(),
            player_id: None,
        };
        proof {
            assert(loc@.actors =~= Map::<Id, ActorView>::empty());
        }
        loc
    }

    /// The number of the actor that the player controls.
    pub fn player_id(&self) -> (id: Id)
        requires
            self@.player_id is Some,
        ensures
            Some(id) == self@.player_id,
    {
        self.player_id.unwrap()
    }

    /// The actor that the player controls.
    pub fn player(&self) -> (a: &Actor)
        requires
            self@.player_id is Some,
            self@.actors.contains_key(self@.player_id->0),
        ensures
            a@ == self@.actors[self@.player_id->0],
    {
        proof {
            lemma_views(self.actors_byid@, 0, self.actors_byid@[self@.player_id->0]);
        }
        let id = self.player_id.unwrap();
        self.actors_byid.get(&id).unwrap()
    }

    /// The tile of the cell `coord`.
    pub fn tile(&self, coord: Coordinate) -> (t: Tile)
        ensures
            t == self@.tile(coord),
    {
        self.map.tile(coord)
    }

    /// Whether an actor stands on the cell `coord`, or stood on it in this
    /// tick.
    pub fn is_occupied(&self, coord: Coordinate) -> (b: bool)
        ensures
            b == self@.occupied(coord),
    {
        self.actors_coord_to_id.contains_key(coord)
    }

    /// Whether an actor can step onto the cell `coord`.
    pub fn is_passable(&self, coord: Coordinate) -> (b: bool)
        ensures
            b == self@.passable(coord),
    {
        !self.is_occupied(coord) && self.map.tile(coord).is_passable()
    }

    /// The light on the cell `coord`.
    pub fn light(&self, coord: Coordinate) -> (l: u32)
        ensures
            l == light_on(self@.light_map, coord),
    {
        match self.light_map.get(coord) {
            Some(l) => *l,
            None => 0,
        }
    }

    /// The light on the cell `coord` as an observer on the cell `viewer`
    /// sees it.
    pub fn light_as_seen_from(&self, coord: Coordinate, viewer: Coordinate) -> (l: u32)
        requires
            coord.in_world(),
            viewer.in_world(),
        ensures
            l == light_seen(self@.light_map, self@.map, viewer, coord),
    {
        let own = self.light(coord);
        if self.map.tile(coord).opaqueness() < BLOCK_LIMIT {
            own
        } else {
            proof {
                lemma_world_within_reach(coord, crate::hex::Direction::YZ, crate::hex::Direction::YZ);
                lemma_world_within_reach(viewer, crate::hex::Direction::YZ, crate::hex::Direction::YZ);
            }
            let dirs = viewer.directions_to(coord);
            let mut best: u32 = 0;
            let mut i: usize = 0;
            while i < dirs.len()
                invariant
                    i <= dirs.len(),
                    coord.in_reach(),
                    best == best_leak(self@.light_map, self@.map, coord, dirs@.take(i as int)),
                decreases dirs.len() - i,
            {
                let n = coord.neighbor(dirs[i].turn(Angle::Back));
                let l = if self.map.tile(n).opaqueness() < BLOCK_LIMIT {
                    self.light(n)
                } else {
                    0
                };
                proof {
                    assert(dirs@.take(i as int + 1).drop_last() =~= dirs@.take(i as int));
                    assert(l == leak(self@.light_map, self@.map, coord, dirs@[i as int]));
                }
                if l > best {
                    best = l;
                }
                i += 1;
            }
            proof {
                assert(dirs@.take(i as int) =~= dirs@);
            }
            best
        }
    }

    /// The item on the floor of the cell `coord`, if there is one.
    pub fn item(&self, coord: Coordinate) -> (r: Option<AnyItem>)
        ensures
            r == if self@.items.contains_key(coord) {
                Some(self@.items[coord])
            } else {
                None
            },
    {
        match self.items.get(coord) {
            Some(i) => Some(*i),
            None => None,
        }
    }

    /// Takes the item off the floor of the cell `coord`, if there is one.
    pub fn pick_item(&mut self, coord: Coordinate) -> (r: Option<AnyItem>)
        ensures
            r == if old(self)@.items.contains_key(coord) {
                Some(old(self)@.items[coord])
            } else {
                None
            },
            final(self)@ == (LocationView { items: old(self)@.items.remove(coord), ..old(self)@ }),
    {
        self.items.remove(coord)
    }

    /// Whether the `j`-th cell of `floor` is the neighbour of one of the
    /// cells of `floor` before it that can be walked to from `start`,
    /// where `ok` tells which of them can.
    fn beside_walked(
        &self,
        start: Coordinate,
        floor: &Vec<Coordinate>,
        ok: &Vec<bool>,
        j: usize,
    ) -> (b: bool)
        requires
            j < floor@.len(),
            j == ok@.len(),
            floor@[j as int].in_world(),
            forall|i: int| 0 <= i < j ==> #[trigger] ok@[i] == self@.walked(start, floor@, i),
        ensures
            b == self@.beside(start, floor@, j as int, 0),
    {
        let c = floor[j];
        let mut i: usize = 0;
        proof {
            lemma_world_within_reach(c, crate::hex::Direction::YZ, crate::hex::Direction::YZ);
        }
        while i < j
            invariant
                i <= j,
                j < floor@.len(),
                j == ok@.len(),
                c == floor@[j as int],
                c.in_reach(),
                forall|k: int| 0 <= k < j ==> #[trigger] ok@[k] == self@.walked(start, floor@, k),
                self@.beside(start, floor@, j as int, 0) == self@.beside(
                    start,
                    floor@,
                    j as int,
                    i as int,
                ),
            decreases j - i,
        {
            if ok[i] {
                proof {
                    assert(self@.walked(start, floor@, i as int));
                    lemma_world_within_reach(
                        floor@[i as int],
                        crate::hex::Direction::YZ,
                        crate::hex::Direction::YZ,
                    );
                }
                if floor[i].distance(c) == 1 {
                    return true;
                }
            }
            i += 1;
        }
        false
    }

    /// Puts `item`, which falls on the cell `start`, down on the first
    /// cell of `floor` that can be walked to from `start` and that holds
    /// no item; the item is lost where there is none.  `floor` is meant
    /// to list the cells that can be walked to from `start`, the nearest
    /// first; a cell counts only where it is `start` or the neighbour of
    /// an earlier cell of `floor` that counts, and an actor can stand on
    /// it.
    pub fn drop_item(&mut self, start: Coordinate, item: AnyItem, floor: &Vec<Coordinate>)
        ensures
            final(self)@ == old(self)@.with_dropped(start, item, floor@),
    {
        let mut ok: Vec<bool> = Vec::new();
        let mut j: usize = 0;
        while j < floor.len()
            invariant
                j <= floor.len(),
                ok@.len() == j,
                *self == *old(self),
                forall|i: int| 0 <= i < j ==> #[trigger] ok@[i] == self@.walked(start, floor@, i),
                old(self)@.landing(start, floor@, 0) == old(self)@.landing(start, floor@, j as int),
            decreases floor.len() - j,
        {
            let c = floor[j];
            let mut good = false;
            if c.is_in_world() && self.map.tile(c).is_passable() {
                good = c == start || self.beside_walked(start, floor, &ok, j);
            }
            if good && !self.items.contains_key(c) {
                self.items.insert(c, item);
                return ;
            }
            ok.push(good);
            j += 1;
        }
    }
}

/// A look at one cell of a location.
pub struct At<'a> {
    coord: Coordinate,
    state: &'a Location,
}

impl<'a> At<'a> {
    /// The cell that is looked at.
    pub closed spec fn cell(&self) -> Coordinate {
        self.coord
    }

    /// The location that the cell is part of.
    pub closed spec fn place(&self) -> LocationView {
        self.state@
    }

    /// The tile of the cell.
    pub fn tile(&self) -> (t: Tile)
        ensures
            t == self.place().tile(self.cell()),
    {
        self.state.tile(self.coord)
    }

    /// What `cond` makes of the actor that occupies the cell; `def` where
    /// no actor of the table does.
    pub fn actor_map_or<R, F: Fn(&Actor) -> R>(&self, def: R, cond: F) -> (r: R)
        requires
            forall|a: &Actor| call_requires(cond, (a,)),
        ensures
            match self.place().occupant(self.cell()) {
                Some(id) => exists|a: &Actor|
                    a@ == self.place().actors[id] && call_ensures(cond, (a,), r),
                None => r == def,
            },
    {
        match self.state.actors_coord_to_id.get(self.coord) {
            Some(id) => {
                proof {
                    lemma_views(self.state.actors_byid@, *id, self.state.actors_byid@[*id]);
                }
                match self.state.actors_byid.get(id) {
                    Some(a) => cond(a),
                    None => def,
                }
            },
            None => def,
        }
    }

    /// What `cond` makes of the item on the floor of the cell; `def`
    /// where there is none.
    pub fn item_map_or<R, F: Fn(&AnyItem) -> R>(&self, def: R, cond: F) -> (r: R)
        requires
            forall|i: &AnyItem| call_requires(cond, (i,)),
        ensures
            if self.place().items.contains_key(self.cell()) {
                call_ensures(cond, (&self.place().items[self.cell()],), r)
            } else {
                r == def
            },
    {
        match self.state.items.get(self.coord) {
            Some(i) => cond(i),
            None => def,
        }
    }

    /// Whether an actor stands on the cell, or stood on it in this tick.
    pub fn is_occupied(&self) -> (b: bool)
        ensures
            b == self.place().occupied(self.cell()),
    {
        self.state.is_occupied(self.coord)
    }

    /// Whether an actor can step onto the cell.
    pub fn is_passable(&self) -> (b: bool)
        ensures
            b == self.place().passable(self.cell()),
    {
        self.state.is_passable(self.coord)
    }

    /// The light on the cell.
    pub fn light(&self) -> (l: u32)
        ensures
            l == light_on(self.place().light_map, self.cell()),
    {
        self.state.light(self.coord)
    }

    /// The light on the cell as the actor `astate` sees it from where it
    /// stands.
    pub fn light_as_seen_by(&self, astate: &Actor) -> (l: u32)
        requires
            self.cell().in_world(),
            astate@.pos.coord.in_world(),
        ensures
            l == light_seen(
                self.place().light_map,
                self.place().map,
                astate@.pos.coord,
                self.cell(),
            ),
    {
        self.state.light_as_seen_from(self.coord, astate.pos.coord)
    }

    /// The item on the floor of the cell, if there is one.
    pub fn item(&self) -> (r: Option<AnyItem>)
        ensures
            r == if self.place().items.contains_key(self.cell()) {
                Some(self.place().items[self.cell()])
            } else {
                None
            },
    {
        self.state.item(self.coord)
    }
}

impl LocationView {
    /// The number of the actor of the table that occupies the cell `c`.
    pub open spec fn occupant(self, c: Coordinate) -> Option<Id> {
        if self.index.contains_key(c) && self.actors.contains_key(self.index[c]) {
            Some(self.index[c])
        } else {
            None
        }
    }
}

impl Location {
    /// A look at the cell `coord`.
    pub fn at(&self, coord: Coordinate) -> (at: At<'_>)
        ensures
            at.cell() == coord,
            at.place() == self@,
    {
        At { coord, state: self }
    }
}

/// A hand on one cell of a location, to change what lies on it.  What the
/// hand has done shows in the location as soon as the hand is let go.
pub struct AtMut<'a> {
    pub coord: Coordinate,
    pub state: &'a mut Location,
}

impl<'a> AtMut<'a> {
    /// The cell that the hand is on.
    pub open spec fn cell(&self) -> Coordinate {
        self.coord
    }

    /// The location that the cell is part of.
    pub open spec fn place(&self) -> LocationView {
        self.state@
    }

    /// Puts `item`, which falls on this cell, down on the first cell of
    /// `floor` that can be walked to from here and that holds no item;
    /// the item is lost where there is none.  `floor` is meant to list
    /// the cells that can be walked to from this cell, the nearest first.
    pub fn drop_item(&mut self, item: AnyItem, floor: &Vec<Coordinate>)
        ensures
            final(self).cell() == old(self).cell(),
            final(self).place() == old(self).place().with_dropped(old(self).cell(), item, floor@),
            *final(final(self).state) == *final(old(self).state),
    {
        self.state.drop_item(self.coord, item, floor);
    }

    /// Takes the item off the floor of the cell, if there is one.
    pub fn pick_item(&mut self) -> (r: Option<AnyItem>)
        ensures
            final(self).cell() == old(self).cell(),
            r == if old(self).place().items.contains_key(old(self).cell()) {
                Some(old(self).place().items[old(self).cell()])
            } else {
                None
            },
            final(self).place() == (LocationView {
                items: old(self).place().items.remove(old(self).cell()),
                ..old(self).place()
            }),
            *final(final(self).state) == *final(old(self).state),
    {
        self.state.pick_item(self.coord)
    }
}

impl Location {
    /// A hand on the cell `coord`.
    pub fn at_mut(&mut self, coord: Coordinate) -> (at: AtMut<'_>)
        ensures
            at.cell() == coord,
            at.place() == old(self)@,
            final(self)@ == final(at.state)@,
    {
        AtMut { coord, state: self }
    }
}

} // verus!
