//! What an actor can be told to do in its turn.

use vstd::prelude::*;
use crate::hex::Angle;
use crate::hex::Coordinate;

verus! {

/// One action of one actor.
#[derive(Copy, Clone, PartialEq, Eq, Structural, Debug)]
pub enum Action {
    /// Stand still and catch breath.
    Wait,
    /// Turn on the spot.
    Turn(Angle),
    /// Step to the neighbouring cell at the given angle from the heading.
    Move(Angle),
    /// Step sideways and turn the other way.
    Spin(Angle),
    /// Equip, take off or use the item with the given letter.
    Equip(char),
    /// Pick up what lies in the cell ahead.
    Pick,
    /// Run two cells ahead.
    Charge,
    /// Go down the stairs.
    Descend,
    /// Shoot at a cell.
    Fire(Coordinate),
}

impl Action {
    /// Whether the action becomes an attack when another actor stands in
    /// its way: a charge, or a step forward, left or right.
    pub open spec fn may_attack(self) -> bool {
        match self {
            Action::Charge => true,
            Action::Move(a) => a == Angle::Forward || a == Angle::Left || a == Angle::Right,
            _ => false,
        }
    }

    /// Whether the action becomes an attack when another actor stands in
    /// its way.
    pub fn could_be_attack(&self) -> (b: bool)
        ensures
            b == self.may_attack(),
    {
        match *self {
            Action::Charge => true,
            Action::Move(a) => match a {
                Angle::Forward => true,
                Angle::Left => true,
                Angle::Right => true,
                _ => false,
            },
            _ => false,
        }
    }
}

} // verus!
