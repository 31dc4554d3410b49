//! Hexagonal geometry: coordinates, directions, relative angles, positions.
//!
//! The types here hold plain integers, so that contracts can speak of them.
//! The operations on them are those of the `hex2d` crate: each is computed by
//! `hex2d` behind a small private function whose contract restates, over the
//! integers, what `hex2d` documents, and is offered on the types of this
//! module by a verified method.

use vstd::prelude::*;

verus! {

/// No coordinate that the simulation stores lies further than this from the
/// origin along either axis.
pub const WORLD_LIMIT: i32 = 16_777_216;

/// The geometric operations accept coordinates up to this far from the
/// origin along either axis; every neighbour of a neighbour of a stored
/// coordinate is within it.
pub const REACH_LIMIT: i32 = 134_217_728;

/// A cell of the hexagonal grid, in axial coordinates.
#[derive(Copy, Clone, PartialEq, Eq, Structural, Debug, Hash)]
pub struct Coordinate {
    pub x: i32,
    pub y: i32,
}

/// One of the six headings on the grid, in clockwise order.
#[derive(Copy, Clone, PartialEq, Eq, Structural, Debug, Hash)]
pub enum Direction {
    /// +y -z
    YZ,
    /// -z +x
    XZ,
    /// +x -y
    XY,
    /// -y +z
    ZY,
    /// +z -x
    ZX,
    /// -x +y
    YX,
}

/// A turn relative to a heading, in steps of sixty degrees clockwise.
#[derive(Copy, Clone, PartialEq, Eq, Structural, Debug, Hash)]
pub enum Angle {
    Forward,
    Right,
    RightBack,
    Back,
    LeftBack,
    Left,
}

/// A cell together with a heading.
#[derive(Copy, Clone, PartialEq, Eq, Structural, Debug, Hash)]
pub struct Position {
    pub coord: Coordinate,
    pub dir: Direction,
}

/// The absolute value of an integer.
pub open spec fn magnitude(v: int) -> int {
    if v >= 0 {
        v
    } else {
        -v
    }
}

/// The number of steps between the cells `(ax, ay)` and `(bx, by)`.
pub open spec fn steps_between(ax: int, ay: int, bx: int, by: int) -> int {
    (magnitude(ax - bx) + magnitude(ay - by) + magnitude((-ax - ay) - (-bx - by))) / 2
}

/// The change of `x` that one step in the direction numbered `dir` makes.
pub open spec fn step_x(dir: int) -> int {
    if dir == 1 || dir == 2 {
        1
    } else if dir == 4 || dir == 5 {
        -1
    } else {
        0
    }
}

/// The change of `y` that one step in the direction numbered `dir` makes.
pub open spec fn step_y(dir: int) -> int {
    if dir == 0 || dir == 5 {
        1
    } else if dir == 2 || dir == 3 {
        -1
    } else {
        0
    }
}

/// The numbers of the one or two directions that lead from the cell
/// `(ax, ay)` towards the cell `(bx, by)`; none where the cells are the same.
pub open spec fn headings_between(ax: int, ay: int, bx: int, by: int) -> Seq<u8> {
    let x = bx - ax;
    let y = by - ay;
    let z = -x - y;
    let s0 = Seq::<u8>::empty();
    let s1 = if x > 0 && z < 0 { s0.push(1u8) } else { s0 };
    let s2 = if x > 0 && y < 0 { s1.push(2u8) } else { s1 };
    let s3 = if z > 0 && y < 0 { s2.push(3u8) } else { s2 };
    let s4 = if z > 0 && x < 0 { s3.push(4u8) } else { s3 };
    let s5 = if y > 0 && z < 0 { s4.push(0u8) } else { s4 };
    if y > 0 && x < 0 { s5.push(5u8) } else { s5 }
}

/// The number of the direction that leads from the cell `(ax, ay)` towards
/// the cell `(bx, by)`; where two directions do, the one that lies
/// clockwise of the line between the cells; none where the cells are the
/// same.
pub open spec fn heading_between(ax: int, ay: int, bx: int, by: int) -> Option<u8> {
    let x = bx - ax;
    let y = by - ay;
    let z = -x - y;
    let xy = if z < 0 { x >= y } else { x > y };
    let yz = if x < 0 { y >= z } else { y > z };
    let zx = if y < 0 { z >= x } else { z > x };
    if xy && yz && !zx {
        Some(1u8)
    } else if xy && !yz && !zx {
        Some(2u8)
    } else if xy && !yz && zx {
        Some(3u8)
    } else if !xy && !yz && zx {
        Some(4u8)
    } else if !xy && yz && zx {
        Some(5u8)
    } else if !xy && yz && !zx {
        Some(0u8)
    } else {
        None
    }
}

/// Of the three comparisons by which `heading_between` tells the
/// directions apart, at least one fails: the cube coordinates of a
/// difference add up to zero, so that they cannot each exceed the next.
pub proof fn lemma_heading_comparisons(x: int, y: int)
    ensures
        ({
            let z = -x - y;
            let xy = if z < 0 { x >= y } else { x > y };
            let yz = if x < 0 { y >= z } else { y > z };
            let zx = if y < 0 { z >= x } else { z > x };
            !(xy && yz && zx)
        }),
{
}

/// Whether `v` is a coordinate entry that the geometric operations accept.
pub open spec fn within_reach(v: int) -> bool {
    -REACH_LIMIT <= v <= REACH_LIMIT
}

/// `Direction + Angle` of `hex2d`, on the numbers of the direction and the
/// angle: the direction reached from `dir` by turning `angle` steps
/// clockwise.  `hex2d` adds the two numbers and reduces the sum modulo six.
#[verifier::external_body]
fn hex2d_turn(dir: u8, angle: u8) -> (r: u8)
    requires
        dir < 6,
        angle < 6,
    ensures
        r == (dir + angle) % 6,
{
    let d = hex2d::Direction::from_int::<i32>(dir as i32);
    let a = hex2d::Angle::from_int::<i32>(angle as i32);
    (d + a).to_int::<i32>() as u8
}

/// `Direction - Direction` of `hex2d`, on the numbers of the directions: the
/// angle by which `from` has to turn clockwise to become `dir`.  `hex2d`
/// subtracts the two numbers and reduces the difference modulo six, into
/// the range from 0 to 5.
#[verifier::external_body]
fn hex2d_angle(dir: u8, from: u8) -> (r: u8)
    requires
        dir < 6,
        from < 6,
    ensures
        r == (dir - from) % 6,
{
    let d = hex2d::Direction::from_int::<i32>(dir as i32);
    let f = hex2d::Direction::from_int::<i32>(from as i32);
    (d - f).to_int::<i32>() as u8
}

/// `Coordinate + Direction` of `hex2d`: the neighbour of the cell `(x, y)`
/// in the direction numbered `dir`.  `hex2d` adds the unit vector of the
/// direction entry by entry.
#[verifier::external_body]
fn hex2d_neighbor(x: i32, y: i32, dir: u8) -> (r: (i32, i32))
    requires
        dir < 6,
        within_reach(x as int),
        within_reach(y as int),
    ensures
        r.0 == x + step_x(dir as int),
        r.1 == y + step_y(dir as int),
{
    let c = hex2d::Coordinate::new(x, y) + hex2d::Direction::from_int::<i32>(dir as i32);
    (c.x, c.y)
}

/// `Coordinate::distance` of `hex2d`: half the sum of the absolute
/// differences of the three cube coordinates of the two cells.
#[verifier::external_body]
fn hex2d_distance(ax: i32, ay: i32, bx: i32, by: i32) -> (r: i32)
    requires
        within_reach(ax as int),
        within_reach(ay as int),
        within_reach(bx as int),
        within_reach(by as int),
    ensures
        r == steps_between(ax as int, ay as int, bx as int, by as int),
{
    hex2d::Coordinate::new(ax, ay).distance(hex2d::Coordinate::new(bx, by))
}

/// `Coordinate::directions_to` of `hex2d`, each direction given by its
/// number: the directions that lead from `(ax, ay)` towards `(bx, by)`, in
/// the order in which `hex2d` tests them.
#[verifier::external_body]
fn hex2d_directions_to(ax: i32, ay: i32, bx: i32, by: i32) -> (r: Vec<u8>)
    requires
        within_reach(ax as int),
        within_reach(ay as int),
        within_reach(bx as int),
        within_reach(by as int),
    ensures
        r@ == headings_between(ax as int, ay as int, bx as int, by as int),
{
    let from = hex2d::Coordinate::new(ax, ay);
    let dirs = from.directions_to(hex2d::Coordinate::new(bx, by));
    dirs.iter().map(|d| d.to_int::<i32>() as u8).collect()
}

/// `Coordinate::direction_to_cw` of `hex2d`, the direction given by its
/// number: the direction that leads from `(ax, ay)` towards `(bx, by)`,
/// found by comparing the cube coordinates of the difference pairwise;
/// none where the cells are the same.  The three comparisons cannot all
/// hold, so that `hex2d` does not panic.
#[verifier::external_body]
fn hex2d_direction_to_cw(ax: i32, ay: i32, bx: i32, by: i32) -> (r: Option<u8>)
    requires
        within_reach(ax as int),
        within_reach(ay as int),
        within_reach(bx as int),
        within_reach(by as int),
    ensures
        r == heading_between(ax as int, ay as int, bx as int, by as int),
{
    let from = hex2d::Coordinate::new(ax, ay);
    let dir = from.direction_to_cw(hex2d::Coordinate::new(bx, by));
    dir.map(|d| d.to_int::<i32>() as u8)
}

impl Direction {
    /// The number of the direction, counting clockwise from `YZ`.
    pub open spec fn number(self) -> int {
        match self {
            Direction::YZ => 0,
            Direction::XZ => 1,
            Direction::XY => 2,
            Direction::ZY => 3,
            Direction::ZX => 4,
            Direction::YX => 5,
        }
    }

    /// The direction with the number `n` modulo six.
    pub open spec fn numbered(n: int) -> Direction {
        let m = n % 6;
        if m == 0 {
            Direction::YZ
        } else if m == 1 {
            Direction::XZ
        } else if m == 2 {
            Direction::XY
        } else if m == 3 {
            Direction::ZY
        } else if m == 4 {
            Direction::ZX
        } else {
            Direction::YX
        }
    }

    /// This direction turned by `a`.
    pub open spec fn turned(self, a: Angle) -> Direction {
        Direction::numbered(self.number() + a.number())
    }

    /// The angle by which `from` has to turn to become this direction.
    pub open spec fn relative_to(self, from: Direction) -> Angle {
        Angle::numbered(self.number() - from.number())
    }

    /// The six directions, clockwise from `YZ`.
    pub open spec fn every() -> Seq<Direction> {
        seq![
            Direction::YZ,
            Direction::XZ,
            Direction::XY,
            Direction::ZY,
            Direction::ZX,
            Direction::YX,
        ]
    }

    /// The number of the direction, counting clockwise from `YZ`.
    pub fn to_int(&self) -> (n: u8)
        ensures
            n == self.number(),
    {
        match *self {
            Direction::YZ => 0,
            Direction::XZ => 1,
            Direction::XY => 2,
            Direction::ZY => 3,
            Direction::ZX => 4,
            Direction::YX => 5,
        }
    }

    /// The direction with the number `n` modulo six.
    pub fn from_int(n: u8) -> (d: Direction)
        ensures
            d == Direction::numbered(n as int),
    {
        let m: u8 = n % 6;
        if m == 0 {
            Direction::YZ
        } else if m == 1 {
            Direction::XZ
        } else if m == 2 {
            Direction::XY
        } else if m == 3 {
            Direction::ZY
        } else if m == 4 {
            Direction::ZX
        } else {
            Direction::YX
        }
    }

    /// The six directions, clockwise from `YZ`.
    pub fn all() -> (v: Vec<Direction>)
        ensures
            v@ == Direction::every(),
    {
        let mut v: Vec<Direction> = Vec::new();
        v.push(Direction::YZ);
        v.push(Direction::XZ);
        v.push(Direction::XY);
        v.push(Direction::ZY);
        v.push(Direction::ZX);
        v.push(Direction::YX);
        assert(v@ =~= Direction::every());
        v
    }

    /// This direction turned by `a`.
    pub fn turn(self, a: Angle) -> (d: Direction)
        ensures
            d == self.turned(a),
    {
        Direction::from_int(hex2d_turn(self.to_int(), a.to_int()))
    }

    /// The angle by which `from` has to turn to become this direction.
    pub fn angle_from(self, from: Direction) -> (a: Angle)
        ensures
            a == self.relative_to(from),
    {
        Angle::from_int(hex2d_angle(self.to_int(), from.to_int()))
    }
}

impl Angle {
    /// The number of sixty-degree steps clockwise that the angle stands for.
    pub open spec fn number(self) -> int {
        match self {
            Angle::Forward => 0,
            Angle::Right => 1,
            Angle::RightBack => 2,
            Angle::Back => 3,
            Angle::LeftBack => 4,
            Angle::Left => 5,
        }
    }

    /// The angle of `n` modulo six steps clockwise.
    pub open spec fn numbered(n: int) -> Angle {
        let m = n % 6;
        if m == 0 {
            Angle::Forward
        } else if m == 1 {
            Angle::Right
        } else if m == 2 {
            Angle::RightBack
        } else if m == 3 {
            Angle::Back
        } else if m == 4 {
            Angle::LeftBack
        } else {
            Angle::Left
        }
    }

    /// The number of sixty-degree steps clockwise that the angle stands for.
    pub fn to_int(&self) -> (n: u8)
        ensures
            n == self.number(),
    {
        match *self {
            Angle::Forward => 0,
            Angle::Right => 1,
            Angle::RightBack => 2,
            Angle::Back => 3,
            Angle::LeftBack => 4,
            Angle::Left => 5,
        }
    }

    /// The angle of `n` modulo six steps clockwise.
    pub fn from_int(n: u8) -> (a: Angle)
        ensures
            a == Angle::numbered(n as int),
    {
        let m: u8 = n % 6;
        if m == 0 {
            Angle::Forward
        } else if m == 1 {
            Angle::Right
        } else if m == 2 {
            Angle::RightBack
        } else if m == 3 {
            Angle::Back
        } else if m == 4 {
            Angle::LeftBack
        } else {
            Angle::Left
        }
    }
}

impl Coordinate {
    /// Whether the simulation may store this coordinate.
    pub open spec fn in_world(self) -> bool {
        &&& -WORLD_LIMIT <= self.x <= WORLD_LIMIT
        &&& -WORLD_LIMIT <= self.y <= WORLD_LIMIT
    }

    /// Whether the geometric operations accept this coordinate.
    pub open spec fn in_reach(self) -> bool {
        within_reach(self.x as int) && within_reach(self.y as int)
    }

    /// The neighbour of this cell in the direction `d`.
    pub open spec fn shifted(self, d: Direction) -> Coordinate {
        Coordinate {
            x: (self.x + step_x(d.number())) as i32,
            y: (self.y + step_y(d.number())) as i32,
        }
    }

    /// The number of steps from this cell to `c`.
    pub open spec fn steps_to(self, c: Coordinate) -> int {
        steps_between(self.x as int, self.y as int, c.x as int, c.y as int)
    }

    /// The directions that lead from this cell towards `c`.
    pub open spec fn headings_to(self, c: Coordinate) -> Seq<Direction> {
        headings_between(self.x as int, self.y as int, c.x as int, c.y as int).map_values(
            |n: u8| Direction::numbered(n as int),
        )
    }

    /// The direction that leads from this cell towards `c`; where two
    /// directions do, the one that lies clockwise of the line between the
    /// cells; none where `c` is this cell.
    pub open spec fn heading_to(self, c: Coordinate) -> Option<Direction> {
        match heading_between(self.x as int, self.y as int, c.x as int, c.y as int) {
            Some(n) => Some(Direction::numbered(n as int)),
            None => None,
        }
    }

    /// The direction that leads from this cell towards `c`; where two
    /// directions do, the one that lies clockwise of the line between the
    /// cells; none where `c` is this cell.
    pub fn direction_to_cw(self, c: Coordinate) -> (d: Option<Direction>)
        requires
            self.in_reach(),
            c.in_reach(),
        ensures
            d == self.heading_to(c),
    {
        match hex2d_direction_to_cw(self.x, self.y, c.x, c.y) {
            Some(n) => Some(Direction::from_int(n)),
            None => None,
        }
    }

    /// The cell with the axial coordinates `x` and `y`.
    pub fn new(x: i32, y: i32) -> (c: Coordinate)
        ensures
            c == (Coordinate { x, y }),
    {
        Coordinate { x, y }
    }

    /// Whether the simulation may store this coordinate.
    pub fn is_in_world(&self) -> (b: bool)
        ensures
            b == self.in_world(),
    {
        -WORLD_LIMIT <= self.x && self.x <= WORLD_LIMIT && -WORLD_LIMIT <= self.y && self.y
            <= WORLD_LIMIT
    }

    /// Whether the geometric operations accept this coordinate.
    pub fn is_in_reach(&self) -> (b: bool)
        ensures
            b == self.in_reach(),
    {
        -REACH_LIMIT <= self.x && self.x <= REACH_LIMIT && -REACH_LIMIT <= self.y && self.y
            <= REACH_LIMIT
    }

    /// The neighbour of this cell in the direction `d`.
    pub fn neighbor(self, d: Direction) -> (c: Coordinate)
        requires
            self.in_reach(),
        ensures
            c == self.shifted(d),
    {
        let (x, y) = hex2d_neighbor(self.x, self.y, d.to_int());
        Coordinate { x, y }
    }

    /// The number of steps from this cell to `c`.
    pub fn distance(self, c: Coordinate) -> (n: i32)
        requires
            self.in_reach(),
            c.in_reach(),
        ensures
            n == self.steps_to(c),
    {
        hex2d_distance(self.x, self.y, c.x, c.y)
    }

    /// The directions that lead from this cell towards `c`: none where `c`
    /// is this cell, one where `c` lies on an axis through it, else two.
    pub fn directions_to(self, c: Coordinate) -> (v: Vec<Direction>)
        requires
            self.in_reach(),
            c.in_reach(),
        ensures
            v@ == self.headings_to(c),
    {
        let numbers = hex2d_directions_to(self.x, self.y, c.x, c.y);
        let mut v: Vec<Direction> = Vec::new();
        let mut i: usize = 0;
        while i < numbers.len()
            invariant
                i <= numbers.len(),
                v@ == numbers@.take(i as int).map_values(|n: u8| Direction::numbered(n as int)),
            decreases numbers.len() - i,
        {
            v.push(Direction::from_int(numbers[i]));
            i += 1;
            assert(v@ =~= numbers@.take(i as int).map_values(
                |n: u8| Direction::numbered(n as int),
            ));
        }
        assert(numbers@.take(i as int) =~= numbers@);
        v
    }
}

impl Position {
    /// This position turned by `a` on the spot.
    pub open spec fn turned(self, a: Angle) -> Position {
        Position { coord: self.coord, dir: self.dir.turned(a) }
    }

    /// This position moved one step in the direction `d`, heading unchanged.
    pub open spec fn shifted(self, d: Direction) -> Position {
        Position { coord: self.coord.shifted(d), dir: self.dir }
    }

    /// The position at `coord` heading `dir`.
    pub fn new(coord: Coordinate, dir: Direction) -> (p: Position)
        ensures
            p == (Position { coord, dir }),
    {
        Position { coord, dir }
    }

    /// This position turned by `a` on the spot.
    pub fn turn(self, a: Angle) -> (p: Position)
        ensures
            p == self.turned(a),
    {
        Position { coord: self.coord, dir: self.dir.turn(a) }
    }

    /// This position moved one step in the direction `d`, heading unchanged.
    pub fn step(self, d: Direction) -> (p: Position)
        requires
            self.coord.in_reach(),
        ensures
            p == self.shifted(d),
    {
        Position { coord: self.coord.neighbor(d), dir: self.dir }
    }
}

/// A stored coordinate is accepted by every geometric operation, and so
/// are its neighbours and their neighbours.
pub proof fn lemma_world_within_reach(c: Coordinate, d: Direction, e: Direction)
    requires
        c.in_world(),
    ensures
        c.in_reach(),
        c.shifted(d).in_reach(),
        c.shifted(d).shifted(e).in_reach(),
        c.shifted(d).x == c.x + step_x(d.number()),
        c.shifted(d).y == c.y + step_y(d.number()),
{
}

/// Two cells are zero steps apart exactly when they are the same cell, and
/// a cell is one step from each of its neighbours.
pub proof fn lemma_steps(a: Coordinate, b: Coordinate, d: Direction)
    ensures
        a.steps_to(b) >= 0,
        a.steps_to(b) == b.steps_to(a),
        a.steps_to(b) == 0 <==> a == b,
        a.in_reach() ==> a.steps_to(a.shifted(d)) == 1,
{
}

} // verus!
