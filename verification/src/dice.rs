//! The rolls that decide a melee attack.
//!
//! The random numbers come from the `rand` crate.  What is decided from
//! them is computed by verified functions that take the numbers drawn as
//! arguments.

use vstd::prelude::*;
use crate::arith::at_least;
use crate::arith::clip;
use crate::arith::larger;
use crate::arith::plus;

verus! {

/// `rand::random_range` on the range from 0 up to, and without, `bound`:
/// a number of that range, drawn from the generator of the thread.  `rand`
/// panics on an empty range, which `bound > 0` excludes.
#[verifier::external_body]
pub(crate) fn random_below(bound: i32) -> (r: i32)
    requires
        bound > 0,
    ensures
        0 <= r < bound,
{
    rand::random_range(0..bound)
}

/// The number of outcomes of the draw that decides whether an attack of
/// accuracy `acc` hits a target of evasion `ev`.
pub open spec fn outcomes(acc: int, ev: int) -> int {
    clip(larger(acc, 0) + larger(ev, 0))
}

/// How many of the `outcomes(acc, ev)` outcomes are hits.
pub open spec fn hits(acc: int, ev: int) -> int {
    if acc <= 0 {
        0
    } else if acc <= outcomes(acc, ev) {
        acc
    } else {
        outcomes(acc, ev)
    }
}

/// Whether an attack of accuracy `acc` hits when the draw gave `draw`.
pub open spec fn hits_on(acc: int, draw: int) -> bool {
    draw < acc
}

/// Whether an attack of accuracy `acc` hits when the draw gave `draw`.
pub fn decide(acc: i32, draw: i32) -> (hit: bool)
    ensures
        hit == hits_on(acc as int, draw as int),
{
    draw < acc
}

/// Whether `hit` is a possible result of rolling accuracy `acc` against
/// evasion `ev`: an attack without accuracy never hits, and an attack with
/// accuracy on a target without evasion always does.
pub open spec fn can_roll(acc: int, ev: int, hit: bool) -> bool {
    &&& acc <= 0 ==> !hit
    &&& acc > 0 && ev <= 0 ==> hit
}

/// Rolls accuracy `acc` against evasion `ev`: draws one of
/// `outcomes(acc, ev)` numbers, counted from 0, and hits when the number
/// is below `acc`.
pub fn roll(acc: i32, ev: i32) -> (hit: bool)
    ensures
        can_roll(acc as int, ev as int, hit),
{
    let bound = plus(at_least(acc, 0), at_least(ev, 0));
    if bound <= 0 {
        false
    } else {
        let draw = random_below(bound);
        decide(acc, draw)
    }
}

/// The share of a hit that armour of class `ac` takes when the two draws
/// gave `first` and `second`: the larger of the two.
pub fn absorb(first: i32, second: i32) -> (r: i32)
    ensures
        r == larger(first as int, second as int),
{
    at_least(first, second)
}

/// Rolls the share of a hit that armour of class `ac` takes: the larger of
/// two numbers drawn from 0 to `ac`; 0 for an armour class below 1.
pub fn roll_armor(ac: i32) -> (r: i32)
    ensures
        0 <= r <= larger(ac as int, 0),
{
    if ac <= 0 {
        0
    } else {
        let bound = plus(ac, 1);
        let first = random_below(bound);
        let second = random_below(bound);
        absorb(first, second)
    }
}

/// More accuracy never lowers the chance to hit, and more evasion never
/// raises it: the chance is `hits` out of `outcomes`, and the chances are
/// compared by cross-multiplying.  The bound on the sums keeps the number
/// of outcomes from being clipped.
pub proof fn lemma_chance_monotone(acc: int, more_acc: int, ev: int, more_ev: int)
    requires
        acc <= more_acc,
        ev <= more_ev,
        larger(more_acc, 0) + larger(more_ev, 0) <= i32::MAX,
    ensures
        hits(acc, ev) * outcomes(more_acc, ev) <= hits(more_acc, ev) * outcomes(acc, ev),
        hits(acc, more_ev) * outcomes(acc, ev) <= hits(acc, ev) * outcomes(acc, more_ev),
{
    let e = larger(ev, 0);
    let f = larger(more_ev, 0);
    if acc > 0 {
        assert(hits(acc, ev) == acc && hits(more_acc, ev) == more_acc);
        assert(outcomes(acc, ev) == acc + e && outcomes(more_acc, ev) == more_acc + e);
        assert(acc * (more_acc + e) <= more_acc * (acc + e)) by (nonlinear_arith)
            requires
                0 < acc <= more_acc,
                e >= 0,
        ;
        assert(outcomes(acc, more_ev) == acc + f);
        assert(acc * (acc + e) <= acc * (acc + f)) by (nonlinear_arith)
            requires
                0 < acc,
                0 <= e <= f,
        ;
    } else {
        assert(hits(acc, ev) == 0 && hits(acc, more_ev) == 0);
        assert(hits(more_acc, ev) >= 0);
        assert(outcomes(acc, ev) >= 0);
        assert(0 <= hits(more_acc, ev) * outcomes(acc, ev)) by (nonlinear_arith)
            requires
                hits(more_acc, ev) >= 0,
                outcomes(acc, ev) >= 0,
        ;
    }
}

} // verus!
