//! What the actors that no player controls decide to do.
//!
//! The searches for a way that these decisions rest on are made outside;
//! the functions here decide from what the searches found.

use vstd::prelude::*;
use crate::action::Action;
use crate::dice::random_below;
use crate::hex::Angle;
use crate::hex::Coordinate;
use crate::hex::Position;

verus! {

/// The number of outcomes of the draw that decides what a roaming actor
/// does.
pub const ROAM_OUTCOMES: i32 = 10;

/// How far from the player a follower stops looking for it.
pub const FOLLOW_RANGE: i32 = 10;

/// The nearest that a follower comes to the player: once nearer than
/// this, it backs off to this distance.
pub const FOLLOW_NEAR: i32 = 3;

/// The distance from which a follower moves up to the player.
pub const FOLLOW_FAR: i32 = 5;

/// What a roaming actor does when the draw gave `draw`: one outcome each
/// for a turn to the right, a turn to the left and a step forward, a wait
/// for every other.
pub open spec fn roams(draw: int) -> Action {
    if draw == 0 {
        Action::Turn(Angle::Right)
    } else if draw == 1 {
        Action::Turn(Angle::Left)
    } else if draw == 2 {
        Action::Move(Angle::Forward)
    } else {
        Action::Wait
    }
}

/// What a roaming actor does when the draw gave `draw`.
pub fn roam_on(draw: i32) -> (a: Action)
    ensures
        a == roams(draw as int),
{
    if draw == 0 {
        Action::Turn(Angle::Right)
    } else if draw == 1 {
        Action::Turn(Angle::Left)
    } else if draw == 2 {
        Action::Move(Angle::Forward)
    } else {
        Action::Wait
    }
}

/// What a roaming actor does: one of the things that a draw can give.
pub fn roam() -> (a: Action)
    ensures
        exists|draw: int| 0 <= draw < ROAM_OUTCOMES && a == roams(draw),
{
    let draw = random_below(ROAM_OUTCOMES);
    let a = roam_on(draw);
    assert(a == roams(draw as int));
    a
}

/// What a follower makes of the place where the search found the player.
#[derive(Copy, Clone, PartialEq, Eq, Structural, Debug)]
pub enum Pursuit {
    /// The player is too near: look for a cell at the right distance
    /// from it.
    BackOff,
    /// The player is at a good distance: do not follow.
    Hold,
    /// The player is far: move up to it.
    Approach,
}

/// What a follower that the search has led to a player `steps` steps away
/// makes of it.
pub open spec fn pursues(steps: int) -> Pursuit {
    if steps < FOLLOW_NEAR {
        Pursuit::BackOff
    } else if steps < FOLLOW_FAR {
        Pursuit::Hold
    } else {
        Pursuit::Approach
    }
}

/// What a follower on the cell `start` makes of a player that the search
/// found on the cell `found`.
pub fn pursuit(start: Coordinate, found: Coordinate) -> (p: Pursuit)
    requires
        start.in_reach(),
        found.in_reach(),
    ensures
        p == pursues(found.steps_to(start)),
{
    let distance = found.distance(start);
    if distance < FOLLOW_NEAR {
        Pursuit::BackOff
    } else if distance < FOLLOW_FAR {
        Pursuit::Hold
    } else {
        Pursuit::Approach
    }
}

/// Whether a follower that backs off from a player on the cell `player`
/// accepts the cell `c` as its aim: the cell lies at the near distance
/// from the player.
pub fn backs_off_to(player: Coordinate, c: Coordinate) -> (b: bool)
    requires
        player.in_reach(),
        c.in_reach(),
    ensures
        b == (c.steps_to(player) == FOLLOW_NEAR),
{
    c.distance(player) == FOLLOW_NEAR
}

/// Whether the search of a follower from the cell `start` may pass the
/// cell `c`, given whether an actor can step onto it: it may start from
/// where it is, and pass what is passable and within the range.
pub fn may_pass(start: Coordinate, c: Coordinate, passable: bool) -> (b: bool)
    requires
        start.in_reach(),
        c.in_reach(),
    ensures
        b == (c == start || (passable && c.steps_to(start) < FOLLOW_RANGE)),
{
    c == start || (passable && c.distance(start) < FOLLOW_RANGE)
}

/// What an actor at `pos` does to get to its neighbour `next`: a step
/// forward where it faces `next`, else the turn that makes it face
/// `next`; a wait where `next` is its own cell.
pub open spec fn heads_for(pos: Position, next: Coordinate) -> Action {
    match pos.coord.heading_to(next) {
        Some(d) => if d == pos.dir {
            Action::Move(Angle::Forward)
        } else {
            Action::Turn(d.relative_to(pos.dir))
        },
        None => Action::Wait,
    }
}

/// What an actor at `pos` does to get to its neighbour `next`.
pub fn head_for(pos: Position, next: Coordinate) -> (a: Action)
    requires
        pos.coord.in_reach(),
        next.in_reach(),
    ensures
        a == heads_for(pos, next),
{
    match pos.coord.direction_to_cw(next) {
        Some(d) => {
            if d == pos.dir {
                Action::Move(Angle::Forward)
            } else {
                Action::Turn(d.angle_from(pos.dir))
            }
        },
        None => Action::Wait,
    }
}

/// What a follower at `pos` does, where `way` is the first step of the
/// way that the searches found for it, if they found one: it takes the
/// way, or roams where there is none.
pub fn pony_follow(pos: Position, way: Option<Coordinate>) -> (a: Action)
    requires
        pos.coord.in_reach(),
        way matches Some(c) ==> c.in_reach(),
    ensures
        match way {
            Some(next) => a == heads_for(pos, next),
            None => exists|draw: int| 0 <= draw < ROAM_OUTCOMES && a == roams(draw),
        },
{
    match way {
        Some(next) => head_for(pos, next),
        None => roam(),
    }
}

} // verus!
