//! Terrain: tiles and the map that holds them.

use vstd::prelude::*;
use crate::coordmap::CoordMap;
use crate::hex::Coordinate;

verus! {

/// What stands on a cell.
#[derive(Copy, Clone, PartialEq, Eq, Structural, Debug)]
pub enum Kind {
    /// Open floor.
    Empty,
    /// Solid rock.
    Wall,
    /// A door, open (`true`) or closed (`false`).
    Door(bool),
    /// A tree.
    Tree,
    /// Stairs that lead down to the next level.
    Stairs,
}

/// The tag of a named part of the level, such as a room.
#[derive(Copy, Clone, PartialEq, Eq, Structural, Debug)]
pub struct Area {
    /// The cell that stands for the whole area.
    pub center: Coordinate,
}

/// The terrain of one cell.
#[derive(Copy, Clone, PartialEq, Eq, Structural, Debug)]
pub struct Tile {
    /// What stands on the cell.
    pub kind: Kind,
    /// How far the cell's own light reaches; 0 for a cell that emits none.
    pub light: i32,
    /// The area that the cell is part of.
    pub area: Option<Area>,
}

/// What a ray of sight or light loses in a cell that it cannot pass.
pub const OPAQUE: i32 = 1000;

/// A tile more opaque than this can be seen only by the light that falls
/// on it from the observer's side.
pub const DIM_LIMIT: i32 = 10;

/// A tile at least this opaque lets no light through.
pub const BLOCK_LIMIT: i32 = 20;

impl Kind {
    /// What a ray of sight or light loses in a cell of this kind.
    pub open spec fn opacity(self) -> int {
        match self {
            Kind::Empty => 1,
            Kind::Wall => OPAQUE as int,
            Kind::Door(open) => if open {
                1
            } else {
                OPAQUE as int
            },
            Kind::Tree => 5,
            Kind::Stairs => 1,
        }
    }

    /// Whether an actor can stand on a cell of this kind.
    pub open spec fn walkable(self) -> bool {
        match self {
            Kind::Empty => true,
            Kind::Wall => false,
            Kind::Door(open) => open,
            Kind::Tree => false,
            Kind::Stairs => true,
        }
    }
}

impl Tile {
    /// The tile that every cell outside the map has.
    pub open spec fn rock() -> Tile {
        Tile { kind: Kind::Wall, light: 0, area: None }
    }

    /// A tile of the given kind that emits no light and is part of no area.
    pub fn new(kind: Kind) -> (t: Tile)
        ensures
            t == (Tile { kind, light: 0, area: None }),
    {
        Tile { kind, light: 0, area: None }
    }

    /// What a ray of sight or light loses in this cell: at least 1, and
    /// `OPAQUE` in a wall or a closed door.
    pub fn opaqueness(&self) -> (o: i32)
        ensures
            o == self.kind.opacity(),
            1 <= o <= OPAQUE,
    {
        match self.kind {
            Kind::Empty => 1,
            Kind::Wall => OPAQUE,
            Kind::Door(open) => if open {
                1
            } else {
                OPAQUE
            },
            Kind::Tree => 5,
            Kind::Stairs => 1,
        }
    }

    /// Whether an actor can stand on this cell.
    pub fn is_passable(&self) -> (b: bool)
        ensures
            b == self.kind.walkable(),
    {
        match self.kind {
            Kind::Empty => true,
            Kind::Wall => false,
            Kind::Door(open) => open,
            Kind::Tree => false,
            Kind::Stairs => true,
        }
    }

    /// Whether this is a closed door.
    pub fn is_closed_door(&self) -> (b: bool)
        ensures
            b == (self.kind == Kind::Door(false)),
    {
        match self.kind {
            Kind::Door(open) => !open,
            _ => false,
        }
    }

    /// Whether this cell holds stairs.
    pub fn is_stairs(&self) -> (b: bool)
        ensures
            b == (self.kind == Kind::Stairs),
    {
        match self.kind {
            Kind::Stairs => true,
            _ => false,
        }
    }
}

/// The tile of the cell `c` on a map with the entries `m`: the entry of
/// `c`, or rock where it has none.
pub open spec fn tile_on(m: Map<Coordinate, Tile>, c: Coordinate) -> Tile {
    if m.contains_key(c) {
        m[c]
    } else {
        Tile::rock()
    }
}

/// The terrain of a level: a tile for each cell, rock wherever no other
/// tile was set.  Only cells within the world limit can be set.
pub struct TileMap {
    tiles: CoordMap<Tile>,
}

impl View for TileMap {
    type V = Map<Coordinate, Tile>;

    closed spec fn view(&self) -> Map<Coordinate, Tile> {
        self.tiles@
    }
}

impl TileMap {
    #[verifier::type_invariant]
    spec fn inv(self) -> bool {
        forall|c: Coordinate| #[trigger] self.tiles@.contains_key(c) ==> c.in_world()
    }

    /// The cells that were set, in the order in which they were first set.
    pub closed spec fn cells(&self) -> Seq<Coordinate> {
        self.tiles.keys()
    }

    /// The tile of the cell `c`.
    pub open spec fn at(&self, c: Coordinate) -> Tile {
        tile_on(self@, c)
    }

    /// Whether every cell that was set lies within the world limit, and
    /// `cells` lists each of them once.
    pub open spec fn charted(cells: Seq<Coordinate>, m: Map<Coordinate, Tile>) -> bool {
        &&& CoordMap::<Tile>::lists(cells, m)
        &&& forall|c: Coordinate| #[trigger] m.contains_key(c) ==> c.in_world()
    }

    /// The map that is rock everywhere.
    pub fn new() -> (m: TileMap)
        ensures
            m@ == Map::<Coordinate, Tile>::empty(),
            m.cells() == Seq::<Coordinate>::empty(),
    {
        TileMap { tiles: CoordMap::new() }
    }

    /// The number of cells that were set.
    pub fn len(&self) -> (n: usize)
        ensures
            n == self.cells().len(),
            Self::charted(self.cells(), self@),
    {
        proof {
            use_type_invariant(self);
        }
        self.tiles.len()
    }

    /// The cell that was set as the `i`-th.
    pub fn cell_at(&self, i: usize) -> (c: Coordinate)
        requires
            i < self.cells().len(),
        ensures
            c == self.cells()[i as int],
            self@.contains_key(c),
            c.in_world(),
    {
        proof {
            use_type_invariant(self);
        }
        self.tiles.key_at(i)
    }

    /// The tile of the cell `c`.
    pub fn tile(&self, c: Coordinate) -> (t: Tile)
        ensures
            t == self.at(c),
            self@.contains_key(c) ==> c.in_world(),
    {
        proof {
            use_type_invariant(self);
        }
        match self.tiles.get(c) {
            Some(t) => *t,
            None => Tile { kind: Kind::Wall, light: 0, area: None },
        }
    }

    /// Sets the tile of the cell `c`, if `c` lies within the world limit.
    /// Returns whether it did.
    pub fn set(&mut self, c: Coordinate, t: Tile) -> (done: bool)
        ensures
            done == c.in_world(),
            final(self)@ == if c.in_world() {
                old(self)@.insert(c, t)
            } else {
                old(self)@
            },
            final(self).cells() == if c.in_world() && !old(self)@.contains_key(c) {
                old(self).cells().push(c)
            } else {
                old(self).cells()
            },
    {
        if !c.is_in_world() {
            return false;
        }
        let mut taken = TileMap::new();
        std::mem::swap(self, &mut taken);
        proof {
            use_type_invariant(&taken);
        }
        let TileMap { tiles } = taken;
        let mut tiles = tiles;
        tiles.insert(c, t);
        *self = TileMap { tiles };
        true
    }

    /// Opens the door in the cell `c`; a cell without a closed door stays
    /// as it is.
    pub fn open_door(&mut self, c: Coordinate)
        ensures
            final(self)@ == if old(self).at(c).kind == Kind::Door(false) {
                old(self)@.insert(c, Tile { kind: Kind::Door(true), ..old(self).at(c) })
            } else {
                old(self)@
            },
            final(self).cells() == old(self).cells(),
    {
        let t = self.tile(c);
        if t.is_closed_door() {
            self.set(c, Tile { kind: Kind::Door(true), light: t.light, area: t.area });
        }
    }
}

} // verus!
