//! Laws of the simulation: what holds of every location, whatever happens
//! to it.

use vstd::prelude::*;
use crate::act::sight_of;
use crate::action::Action;
use crate::actor::ActorView;
use crate::actor::Id;
use crate::hex::Coordinate;
use crate::hex::Position;
use crate::location::LocationView;
use crate::sight::light_on;
use crate::tick::lemma_hooked;
use crate::tick::lemma_noised;
use crate::tick::lemma_swept;
use crate::tick::lemma_refreshed_wf;
use crate::tile::Kind;

verus! {

/// In a well-formed location every actor of the table is found through the
/// cell it stands on, and no two actors of the table stand on one cell.
pub proof fn lemma_one_actor_per_cell(loc: LocationView)
    requires
        loc.wf(),
    ensures
        forall|id: Id| #[trigger]
            loc.actors.contains_key(id) ==> loc.index.contains_key(loc.actors[id].pos.coord)
                && loc.index[loc.actors[id].pos.coord] == id,
        forall|a: Id, b: Id|
            loc.actors.contains_key(a) && loc.actors.contains_key(b) && a != b
                ==> loc.actors[a].pos.coord != loc.actors[b].pos.coord,
{
    assert forall|a: Id, b: Id|
        loc.actors.contains_key(a) && loc.actors.contains_key(b) && a != b implies loc.actors[a].pos.coord
        != loc.actors[b].pos.coord by {
        assert(loc.index[loc.actors[a].pos.coord] == a);
        assert(loc.index[loc.actors[b].pos.coord] == b);
    }
}

/// An actor that is dead, or held back by its cooldown, changes nothing
/// when it is given an action, whatever the action.
pub proof fn lemma_cooldown_blocks(
    loc: LocationView,
    id: Id,
    action: Action,
    here: Seq<Coordinate>,
    sights: Seq<Seq<Coordinate>>,
    hit: bool,
    absorbed: int,
)
    requires
        loc.actors[id].action_cd != 0 || loc.actors[id].is_dead(),
    ensures
        loc.acted(id, action, here, sights, hit, absorbed) == loc,
{
    reveal(LocationView::acted);
}

/// Trying one position takes nothing from what any actor knows.
pub proof fn lemma_step_known(
    loc: LocationView,
    id: Id,
    action: Action,
    cand: Position,
    sight: Set<Coordinate>,
    hit: bool,
    absorbed: int,
)
    requires
        loc.actors.contains_key(id),
    ensures
        loc.step(id, action, cand, sight, hit, absorbed).0.actors.dom() == loc.actors.dom(),
        forall|i: Id| #[trigger]
            loc.actors.contains_key(i) ==> loc.step(
                id,
                action,
                cand,
                sight,
                hit,
                absorbed,
            ).0.actors[i].known == loc.actors[i].known,
{
    reveal(LocationView::step);
    let next = loc.step(id, action, cand, sight, hit, absorbed).0;
    assert(next.actors.dom() =~= loc.actors.dom());
}

/// Trying the positions of an action takes nothing from what any actor
/// knows.
pub proof fn lemma_resolve_known(
    loc: LocationView,
    id: Id,
    action: Action,
    cands: Seq<Position>,
    sights: Seq<Seq<Coordinate>>,
    hit: bool,
    absorbed: int,
    from: int,
)
    requires
        loc.actors.contains_key(id),
    ensures
        loc.resolve(id, action, cands, sights, hit, absorbed, from).actors.dom()
            == loc.actors.dom(),
        forall|i: Id| #[trigger]
            loc.actors.contains_key(i) ==> loc.resolve(
                id,
                action,
                cands,
                sights,
                hit,
                absorbed,
                from,
            ).actors[i].known == loc.actors[i].known,
    decreases cands.len() - from,
{
    if 0 <= from < cands.len() {
        let (next, stop) = loc.step(
            id,
            action,
            cands[from],
            sight_of(sights, from),
            hit,
            absorbed,
        );
        lemma_step_known(loc, id, action, cands[from], sight_of(sights, from), hit, absorbed);
        if !stop {
            assert(next.actors.contains_key(id));
            lemma_resolve_known(next, id, action, cands, sights, hit, absorbed, from + 1);
            assert forall|i: Id| #[trigger] loc.actors.contains_key(i) implies loc.resolve(
                id,
                action,
                cands,
                sights,
                hit,
                absorbed,
                from,
            ).actors[i].known == loc.actors[i].known by {
                assert(next.actors.contains_key(i));
            }
        }
    }
}

/// What an actor knows never shrinks in a turn: after the turn of any
/// actor, every actor of the table knows all that it knew before.
pub proof fn lemma_known_grows_in_turn(
    loc: LocationView,
    id: Id,
    action: Action,
    here: Seq<Coordinate>,
    sights: Seq<Seq<Coordinate>>,
    hit: bool,
    absorbed: int,
)
    requires
        loc.actors.contains_key(id),
    ensures
        forall|i: Id| #[trigger]
            loc.actors.contains_key(i) ==> loc.acted(
                id,
                action,
                here,
                sights,
                hit,
                absorbed,
            ).actors.contains_key(i) && loc.actors[i].known.subset_of(
                loc.acted(id, action, here, sights, hit, absorbed).actors[i].known,
            ),
{
    reveal(LocationView::acted);
    let a = loc.actors[id];
    let after = loc.acted(id, action, here, sights, hit, absorbed);
    if a.can_perform_action() {
        let started = loc.with_actor(id, a.at_turn_start());
        let cands = started.actors[id].targets(action);
        let moved = started.resolve(id, action, cands, sights, hit, absorbed, 0);
        lemma_resolve_known(started, id, action, cands, sights, hit, absorbed, 0);
        assert forall|i: Id| #[trigger] loc.actors.contains_key(i) implies after.actors.contains_key(
            i,
        ) && loc.actors[i].known.subset_of(after.actors[i].known) by {
            assert(started.actors.contains_key(i));
            assert(moved.actors.contains_key(i));
            assert(moved.actors[i].known == started.actors[i].known);
        }
    }
}

/// What an actor knows never shrinks while it sits out a turn.
pub proof fn lemma_known_grows_in_skip(loc: LocationView, id: Id, here: Seq<Coordinate>)
    requires
        loc.actors.contains_key(id),
    ensures
        forall|i: Id| #[trigger]
            loc.actors.contains_key(i) ==> loc.skipped(id, here).actors.contains_key(i)
                && loc.actors[i].known.subset_of(loc.skipped(id, here).actors[i].known),
{
}

/// The start of a tick leaves what every actor knows as it is.
pub proof fn lemma_known_kept_at_tick_start(loc: LocationView)
    ensures
        loc.at_tick_start().actors.dom() == loc.actors.dom(),
        forall|i: Id| #[trigger]
            loc.actors.contains_key(i) ==> loc.at_tick_start().actors[i].known
                == loc.actors[i].known,
{
    assert(loc.at_tick_start().actors.dom() =~= loc.actors.dom());
    assert forall|i: Id| #[trigger] loc.actors.contains_key(i) implies loc.at_tick_start().actors[i].known
        == loc.actors[i].known by {
        lemma_hooked(loc.actors[i], true);
    }
}

/// The end of a tick leaves what every actor knows as it is: the actors
/// that are still in the table afterwards were in it before, and know
/// what they knew.
pub proof fn lemma_known_kept_at_tick_end(
    loc: LocationView,
    floors: Seq<Seq<Coordinate>>,
    rays: Seq<Seq<(Coordinate, i32)>>,
)
    requires
        loc.wf(),
    ensures
        forall|i: Id| #[trigger]
            loc.at_tick_end(floors, rays).actors.contains_key(i) ==> loc.actors.contains_key(i)
                && loc.at_tick_end(floors, rays).actors[i].known == loc.actors[i].known,
{
    let a = loc.with_stats();
    lemma_refreshed_wf(loc, false);
    let b = a.swept(floors, 0, a.counter as int, 0);
    lemma_swept(a, floors, 0, 0);
    let c = b.reindexed().relit(rays);
    let d = c.with_noises();
    lemma_noised(c, c.counter as int, 0);
    assert forall|i: Id| #[trigger] d.actors.contains_key(i) implies loc.actors.contains_key(i)
        && d.actors[i].known == loc.actors[i].known by {
        assert(c.actors.contains_key(i));
        assert(b.actors.contains_key(i));
        assert(a.actors.contains_key(i));
        lemma_hooked(loc.actors[i], false);
    }
}

/// Only a change of level empties what an actor knows.
pub proof fn lemma_new_level_resets(a: ActorView)
    ensures
        a.on_new_level().known == Set::<Coordinate>::empty(),
        a.on_new_level().known_areas == Set::<Coordinate>::empty(),
{
}

/// The sources of light do not depend on the light map.
pub proof fn lemma_lamps_frame(loc: LocationView, light: Map<Coordinate, u32>, upto: int)
    ensures
        (LocationView { light_map: light, ..loc }).tile_lamps(loc.cells, upto) == loc.tile_lamps(
            loc.cells,
            upto,
        ),
        (LocationView { light_map: light, ..loc }).actor_lamps(upto) == loc.actor_lamps(upto),
    decreases upto,
{
    if upto > 0 {
        lemma_lamps_frame(loc, light, upto - 1);
    }
}

/// Making the light map anew twice from the same rays gives the same
/// light map as making it once.
pub proof fn lemma_relit_twice(loc: LocationView, rays: Seq<Seq<(Coordinate, i32)>>)
    ensures
        loc.relit(rays).relit(rays) == loc.relit(rays),
{
    let once = loc.relit(rays);
    lemma_lamps_frame(loc, once.light_map, loc.cells.len() as int);
    lemma_lamps_frame(loc, once.light_map, loc.counter as int);
}

/// Light lies only where a source reaches: after the light map was made
/// anew, every lit cell lies within the world, and some source of light
/// is no more steps away from it than its reach exceeds the light on the
/// cell.
pub proof fn lemma_light_within_reach(
    loc: LocationView,
    rays: Seq<Seq<(Coordinate, i32)>>,
    c: Coordinate,
)
    requires
        light_on(loc.relit(rays).light_map, c) > 0,
    ensures
        c.in_world(),
        exists|k: int|
            0 <= k < loc.lamps().len() && (#[trigger] loc.lamps()[k]).0.steps_to(c) + light_on(
                loc.relit(rays).light_map,
                c,
            ) <= loc.lamps()[k].1,
{
    let all = crate::tick::trimmed_all(loc.lamps(), rays);
    crate::tick::lemma_light_is_brightest(all, c);
    let l = light_on(loc.relit(rays).light_map, c);
    let (i, j) = choose|i: int, j: int|
        0 <= i < all.len() && #[trigger] crate::tick::brings(all[i], j, c, l);
    let keep = |e: (Coordinate, i32)| crate::tick::fits(loc.lamps()[i], e.0, e.1 as int);
    assert(all[i] == rays[i].filter(keep));
    rays[i].lemma_filter_pred(keep, j);
    assert(keep(all[i][j]));
    assert(crate::tick::fits(loc.lamps()[i], c, l));
    assert(loc.lamps()[i].0.steps_to(c) + l <= loc.lamps()[i].1);
}

/// Letting the noises spread twice in an unchanged location gives the
/// same as letting them spread once.
pub proof fn lemma_noises_twice(loc: LocationView)
    requires
        loc.wf(),
    ensures
        loc.with_noises().with_noises() == loc.with_noises(),
{
    let once = loc.with_noises();
    let twice = once.with_noises();
    let n = loc.counter as int;
    lemma_noised(loc, n, 0);
    lemma_noised(once, n, 0);
    assert forall|t: Id| #[trigger] once.actors.contains_key(t) implies twice.actors[t]
        == once.actors[t] by {
        assert(loc.actors.contains_key(t));
        if !loc.actors[t].is_dead() {
            assert forall|c: Coordinate| once.hears_from(t, c) == loc.hears_from(t, c) by {
                if loc.index.contains_key(c) && loc.actors.contains_key(loc.index[c]) {
                    assert(once.actors.contains_key(loc.index[c]));
                }
            }
            assert forall|c: Coordinate| loc.hears_from(t, c) implies loc.index[c] < n by {
                assert(loc.actors.contains_key(loc.index[c]));
            }
            assert forall|c: Coordinate| once.hears_from(t, c) implies once.actors[once.index[c]].race
                == loc.actors[loc.index[c]].race by {
                assert(loc.actors.contains_key(loc.index[c]));
            }
            assert(once.heard_by(t, n) =~= loc.heard_by(t, n));
        }
    }
    assert(twice.actors =~= once.actors);
}

/// A closed door that was opened can be stepped through: once the door in
/// a cell is open, the cell is passable as soon as no actor occupies it.
pub proof fn lemma_opened_door_is_passable(loc: LocationView, c: Coordinate)
    requires
        loc.tile(c).kind == Kind::Door(false),
    ensures
        loc.door_opened(c).tile(c).kind == Kind::Door(true),
        loc.door_opened(c).passable(c) == !loc.occupied(c),
{
}

/// The dead are taken away at the end of the tick: an actor whose hit
/// points are used up is, after the end of the tick, no longer in the
/// table and counted among the dead; and whoever is in the table then is
/// alive.
pub proof fn lemma_dead_are_counted(
    loc: LocationView,
    floors: Seq<Seq<Coordinate>>,
    rays: Seq<Seq<(Coordinate, i32)>>,
)
    requires
        loc.wf(),
    ensures
        forall|i: Id| #[trigger]
            loc.actors.contains_key(i) && loc.actors[i].is_dead() ==> loc.at_tick_end(
                floors,
                rays,
            ).dead.contains(i) && !loc.at_tick_end(floors, rays).actors.contains_key(i),
        forall|i: Id| #[trigger]
            loc.at_tick_end(floors, rays).actors.contains_key(i) ==> !loc.at_tick_end(
                floors,
                rays,
            ).actors[i].is_dead(),
        forall|i: Id| #[trigger]
            loc.at_tick_end(floors, rays).dead.contains(i) ==> loc.dead.contains(i) || (
            loc.actors.contains_key(i) && loc.actors[i].is_dead()),
{
    let a = loc.with_stats();
    lemma_refreshed_wf(loc, false);
    let b = a.swept(floors, 0, a.counter as int, 0);
    lemma_swept(a, floors, 0, 0);
    let c = b.reindexed().relit(rays);
    let d = c.with_noises();
    lemma_noised(c, c.counter as int, 0);
    crate::tick::lemma_tick_end_wf(loc, floors, rays);
    assert forall|i: Id| #[trigger] loc.actors.contains_key(i) && loc.actors[i].is_dead() implies d.dead.contains(
        i,
    ) && !d.actors.contains_key(i) by {
        assert(a.actors.contains_key(i));
        lemma_hooked(loc.actors[i], false);
        assert(b.dead.contains(i));
    }
    assert forall|i: Id| #[trigger] d.dead.contains(i) implies loc.dead.contains(i) || (
    loc.actors.contains_key(i) && loc.actors[i].is_dead()) by {
        assert(b.dead.contains(i));
        if a.actors.contains_key(i) {
            assert(loc.actors.contains_key(i));
            lemma_hooked(loc.actors[i], false);
        }
    }
}

/// The cooldown of an actor is never negative once it is not, and a turn
/// of its own shortens it by one tick at most.
pub proof fn lemma_cooldown(a: ActorView, ch: char, slot: crate::stats::Slot, item: crate::item::AnyItem)
    requires
        a.action_cd >= 0,
    ensures
        a.at_tick_start().action_cd == a.action_cd,
        a.action_cd - 1 <= a.at_turn_start().action_cd <= a.action_cd,
        a.at_turn_start().action_cd >= 0,
        a.switched(ch).action_cd >= a.action_cd,
        a.with_equipped(item, ch).action_cd >= a.action_cd,
        a.without_slot(slot).action_cd >= a.action_cd,
        a.without_letter(ch).action_cd >= a.action_cd,
        a.with_derived_stats().action_cd == a.action_cd,
{
}

/// A hit that leaves at least as much damage as the target has hit points
/// kills the target.
pub proof fn lemma_deadly_hit(
    target: ActorView,
    dir: crate::hex::Direction,
    attacker: ActorView,
    absorbed: int,
)
    requires
        attacker.blow_left(dir, target, absorbed) >= target.hp,
    ensures
        target.after_attacked(dir, attacker, true, absorbed).is_dead(),
        target.after_attacked(dir, attacker, false, absorbed).hp == target.hp,
{
}

/// An item that falls comes to lie on the first cell of the floor that can
/// be walked to from where it falls and that holds no item, and on no
/// other; it is lost only where the floor has no such cell.
pub proof fn lemma_dropped_lands(
    loc: LocationView,
    start: Coordinate,
    item: crate::item::AnyItem,
    floor: Seq<Coordinate>,
    from: int,
)
    requires
        0 <= from <= floor.len(),
    ensures
        from <= loc.landing(start, floor, from) <= floor.len(),
        forall|j: int|
            from <= j < loc.landing(start, floor, from) ==> !#[trigger] loc.lands(start, floor, j),
        loc.landing(start, floor, from) < floor.len() ==> loc.lands(
            start,
            floor,
            loc.landing(start, floor, from),
        ),
        from == 0 && loc.landing(start, floor, 0) < floor.len() ==> loc.with_dropped(
            start,
            item,
            floor,
        ).items == loc.items.insert(floor[loc.landing(start, floor, 0)], item),
        from == 0 && loc.landing(start, floor, 0) >= floor.len() ==> loc.with_dropped(
            start,
            item,
            floor,
        ) == loc,
    decreases floor.len() - from,
{
    if from < floor.len() && !loc.lands(start, floor, from) {
        lemma_dropped_lands(loc, start, item, floor, from + 1);
    }
}

/// Whether `path` is a way over the terrain `tiles`: a sequence of cells
/// on each of which an actor can stand, each the neighbour of the one
/// before it.
pub open spec fn is_way(tiles: Map<Coordinate, crate::tile::Tile>, path: Seq<Coordinate>) -> bool {
    &&& path.len() > 0
    &&& forall|k: int|
        0 <= k < path.len() ==> crate::tile::tile_on(tiles, #[trigger] path[k]).kind.walkable()
    &&& forall|k: int| 0 <= k < path.len() - 1 ==> (#[trigger] path[k]).steps_to(path[k + 1]) == 1
}

/// A cell that lies beside one that can be walked to has such a cell among
/// those listed before it, which the lemma returns.
pub proof fn lemma_beside(
    loc: LocationView,
    start: Coordinate,
    floor: Seq<Coordinate>,
    j: int,
    from: int,
) -> (i: int)
    requires
        loc.beside(start, floor, j, from),
    ensures
        from <= i < j,
        loc.walked(start, floor, i),
        floor[i].steps_to(floor[j]) == 1,
    decreases j - from,
{
    if loc.walked(start, floor, from) && floor[from].steps_to(floor[j]) == 1 {
        from
    } else {
        lemma_beside(loc, start, floor, j, from + 1)
    }
}

/// A cell on which a fallen item can be put down can be reached from where
/// the item fell: there is a way from there to the cell, over cells on
/// which an actor can stand.
pub proof fn lemma_walked_is_reachable(
    loc: LocationView,
    start: Coordinate,
    floor: Seq<Coordinate>,
    j: int,
)
    requires
        loc.walked(start, floor, j),
    ensures
        exists|path: Seq<Coordinate>|
            is_way(loc.map, path) && #[trigger] path.first() == start && path.last() == floor[j],
    decreases j,
{
    if floor[j] == start {
        let path = seq![start];
        assert(is_way(loc.map, path));
        assert(path.first() == start && path.last() == floor[j]);
    } else {
        let i = lemma_beside(loc, start, floor, j, 0);
        lemma_walked_is_reachable(loc, start, floor, i);
        let before = choose|path: Seq<Coordinate>|
            is_way(loc.map, path) && #[trigger] path.first() == start && path.last() == floor[i];
        let path = before.push(floor[j]);
        assert forall|k: int| 0 <= k < path.len() implies crate::tile::tile_on(
            loc.map,
            #[trigger] path[k],
        ).kind.walkable() by {
            if k < before.len() {
                assert(path[k] == before[k]);
            }
        }
        assert forall|k: int| 0 <= k < path.len() - 1 implies (#[trigger] path[k]).steps_to(
            path[k + 1],
        ) == 1 by {
            if k < before.len() - 1 {
                assert(path[k] == before[k] && path[k + 1] == before[k + 1]);
            } else {
                assert(path[k] == before.last());
            }
        }
        assert(is_way(loc.map, path));
        assert(path.first() == start && path.last() == floor[j]);
    }
}

/// An actor sees no further than its vision reaches: whatever is handed in
/// as its line of sight, once it has taken in what it sees, its line of
/// sight and what it sees lie within the world and within the reach of
/// its vision, and what it sees is part of its line of sight.
pub proof fn lemma_sight_within_vision(
    a: ActorView,
    light: Map<Coordinate, u32>,
    tiles: Map<Coordinate, crate::tile::Tile>,
    sight: Set<Coordinate>,
)
    ensures
        forall|c: Coordinate| #[trigger]
            a.perceiving(light, tiles, sight).in_los.contains(c) ==> sight.contains(c)
                && a.in_sight(c),
        a.perceiving(light, tiles, sight).visible.subset_of(
            a.perceiving(light, tiles, sight).in_los,
        ),
        a.perceiving(light, tiles, sight).pos == a.pos,
        a.perceiving(light, tiles, sight).stats == a.stats,
{
}

/// Every attack but the one straight against the heading of the target
/// counts as coming from the side or from behind, and is doubled.
pub proof fn lemma_flank(dir: crate::hex::Direction, facing: crate::hex::Direction)
    ensures
        crate::actor::from_behind(dir, facing) <==> dir.relative_to(facing)
            != crate::hex::Angle::Back,
        crate::actor::from_behind(facing, facing),
        !crate::actor::from_behind(facing.turned(crate::hex::Angle::Back), facing),
        crate::actor::from_behind(facing.turned(crate::hex::Angle::LeftBack), facing),
        crate::actor::from_behind(facing.turned(crate::hex::Angle::RightBack), facing),
        crate::actor::from_behind(facing.turned(crate::hex::Angle::Left), facing),
        crate::actor::from_behind(facing.turned(crate::hex::Angle::Right), facing),
{
    lemma_turn_and_back(facing, crate::hex::Angle::Forward);
    lemma_turn_and_back(facing, crate::hex::Angle::Back);
    lemma_turn_and_back(facing, crate::hex::Angle::LeftBack);
    lemma_turn_and_back(facing, crate::hex::Angle::RightBack);
    lemma_turn_and_back(facing, crate::hex::Angle::Left);
    lemma_turn_and_back(facing, crate::hex::Angle::Right);
    assert(facing.turned(crate::hex::Angle::Forward) == facing);
}

/// The angle from a heading to the heading turned by an angle is that
/// angle.
pub proof fn lemma_turn_and_back(d: crate::hex::Direction, a: crate::hex::Angle)
    ensures
        d.turned(a).relative_to(d) == a,
        d.turned(crate::hex::Angle::Forward) == d,
{
    let n = d.number();
    let m = a.number();
    assert(0 <= n < 6 && 0 <= m < 6);
    let t = (n + m) % 6;
    assert(t == if n + m >= 6 {
        n + m - 6
    } else {
        n + m
    });
    assert(d.turned(a).number() == t);
    assert((t - n) % 6 == m) by {
        if n + m >= 6 {
            assert((m - 6) % 6 == m);
        } else {
            assert(m % 6 == m);
        }
    }
    assert(n % 6 == n);
}

/// The damage of an attack: with a melee damage that is not negative, the
/// damage before the armour is the melee damage, doubled from the side or
/// from behind, then halved where the stamina is short.  What is left
/// after an armour that takes no more than its class lies between that
/// damage less the armour class, at least 0, and that damage; without
/// armour it is that damage.  Both records hold it, with the mark of the
/// flank, and the target never gains hit points by an attack.
pub proof fn lemma_damage(
    attacker: ActorView,
    dir: crate::hex::Direction,
    target: ActorView,
    hit: bool,
    absorbed: int,
)
    requires
        attacker.stats.melee_dmg >= 0,
        0 <= absorbed <= crate::arith::larger(target.stats.base.ac as int, 0),
    ensures
        ({
            let d = attacker.stats.melee_dmg as int;
            let flank = crate::actor::from_behind(dir, target.pos.dir);
            let full = if flank {
                crate::arith::clip(2 * d)
            } else {
                d
            };
            let raw = attacker.blow_dmg(dir, target);
            let left = attacker.blow_left(dir, target, absorbed);
            let mine = attacker.after_attacking(dir, target, hit, absorbed).did_attack.last();
            let theirs = target.after_attacked(dir, attacker, hit, absorbed).was_attacked_by.last();
            &&& raw == if attacker.can_attack_sp() {
                full
            } else {
                full / 2
            }
            &&& 0 <= raw <= 2 * d
            &&& crate::arith::larger(0, raw - crate::arith::larger(target.stats.base.ac as int, 0))
                <= left <= raw
            &&& absorbed == 0 ==> left == raw
            &&& mine.dmg == left && mine.behind == flank && mine.success == hit
            &&& theirs.dmg == left && theirs.behind == flank && theirs.success == hit
            &&& target.after_attacked(dir, attacker, hit, absorbed).hp <= target.hp
            &&& !hit ==> target.after_attacked(dir, attacker, hit, absorbed).hp == target.hp
        }),
{
}

/// A new actor gets the number of the counter, which no actor had before
/// and none will get again; it stands where it was put, and is found
/// through its cell.  Every older actor stays as it was, and every cell
/// that was occupied stays occupied by the same actor.
pub proof fn lemma_spawn_adds_one(loc: LocationView, a: ActorView, sight: Set<Coordinate>)
    requires
        loc.wf(),
        a.pos.coord.in_world(),
        !loc.occupied(a.pos.coord),
        loc.counter < u32::MAX,
    ensures
        ({
            let after = loc.with_spawned(a, sight);
            let id = loc.counter;
            &&& after.wf()
            &&& after.counter == id + 1
            &&& !loc.actors.contains_key(id) && !loc.dead.contains(id)
            &&& after.actors.contains_key(id)
            &&& after.actors[id].pos == a.pos
            &&& after.actors[id].hp == a.hp
            &&& after.index[a.pos.coord] == id
            &&& after.actors.dom() == loc.actors.dom().insert(id)
            &&& forall|i: Id| #[trigger]
                loc.actors.contains_key(i) ==> after.actors[i] == loc.actors[i]
            &&& forall|c: Coordinate| #[trigger]
                loc.index.contains_key(c) ==> after.index.contains_key(c) && after.index[c]
                    == loc.index[c]
            &&& after.dead == loc.dead
        }),
{
    let after = loc.with_spawned(a, sight);
    crate::tick::lemma_spawned_wf(loc, a, sight);
    assert(after.actors.dom() =~= loc.actors.dom().insert(loc.counter));
    if loc.actors.contains_key(loc.counter) {
        assert(loc.counter < loc.counter);
    }
    if loc.dead.contains(loc.counter) {
        assert(loc.counter < loc.counter);
    }
}

/// Whether the floor `after` holds every item that the floor `before`
/// holds, on the same cell.
pub open spec fn keeps(
    before: Map<Coordinate, crate::item::AnyItem>,
    after: Map<Coordinate, crate::item::AnyItem>,
) -> bool {
    forall|c: Coordinate| #[trigger]
        before.contains_key(c) ==> after.contains_key(c) && after[c] == before[c]
}

/// An item that is put down takes the place of no other: what lay on the
/// floor lies there still.
pub proof fn lemma_drop_keeps(
    loc: LocationView,
    start: Coordinate,
    item: crate::item::AnyItem,
    floor: Seq<Coordinate>,
)
    ensures
        keeps(loc.items, loc.with_dropped(start, item, floor).items),
{
    lemma_dropped_lands(loc, start, item, floor, 0);
}

/// What a dead actor carried takes the place of nothing that lay on the
/// floor.
pub proof fn lemma_spill_pack_keeps(
    loc: LocationView,
    start: Coordinate,
    pack: Seq<(char, crate::item::AnyItem)>,
    floor: Seq<Coordinate>,
    from: int,
)
    ensures
        keeps(loc.items, loc.spilled_pack(start, pack, floor, from).items),
    decreases pack.len() - from,
{
    if 0 <= from < pack.len() {
        let next = loc.with_dropped(start, pack[from].1, floor);
        lemma_drop_keeps(loc, start, pack[from].1, floor);
        lemma_spill_pack_keeps(next, start, pack, floor, from + 1);
    }
}

/// What a dead actor wore takes the place of nothing that lay on the
/// floor.
pub proof fn lemma_spill_worn_keeps(
    loc: LocationView,
    start: Coordinate,
    worn: Map<crate::stats::Slot, (char, crate::item::AnyItem)>,
    floor: Seq<Coordinate>,
    from: int,
)
    ensures
        keeps(loc.items, loc.spilled_worn(start, worn, floor, from).items),
    decreases 7 - from,
{
    if 0 <= from < 7 {
        if worn.contains_key(crate::stats::Slot::numbered(from)) {
            let item = worn[crate::stats::Slot::numbered(from)].1;
            let next = loc.with_dropped(start, item, floor);
            lemma_drop_keeps(loc, start, item, floor);
            lemma_spill_worn_keeps(next, start, worn, floor, from + 1);
        } else {
            lemma_spill_worn_keeps(loc, start, worn, floor, from + 1);
        }
    }
}

/// Taking the dead away leaves on the floor what lay there.
pub proof fn lemma_swept_keeps(
    loc: LocationView,
    floors: Seq<Seq<Coordinate>>,
    from: int,
    upto: int,
    k: int,
)
    ensures
        keeps(loc.items, loc.swept(floors, from, upto, k).items),
    decreases upto - from,
{
    if 0 <= from < upto {
        let id = from as Id;
        if loc.actors.contains_key(id) && loc.actors[id].is_dead() {
            let a = loc.actors[id];
            let floor = crate::tick::floor_of(floors, k);
            let gone = LocationView {
                actors: loc.actors.remove(id),
                dead: loc.dead.insert(id),
                ..loc
            };
            let packed = gone.spilled_pack(a.pos.coord, a.items_backpack, floor, 0);
            lemma_spill_pack_keeps(gone, a.pos.coord, a.items_backpack, floor, 0);
            lemma_spill_worn_keeps(packed, a.pos.coord, a.items_equipped, floor, 0);
            let next = loc.buried(id, floor);
            lemma_swept_keeps(next, floors, from + 1, upto, k + 1);
        } else {
            lemma_swept_keeps(loc, floors, from + 1, upto, k);
        }
    }
}

/// The end of a tick leaves on the floor what lay there: what the dead
/// spill comes to lie on cells that held no item.
pub proof fn lemma_tick_end_keeps_items(
    loc: LocationView,
    floors: Seq<Seq<Coordinate>>,
    rays: Seq<Seq<(Coordinate, i32)>>,
)
    ensures
        keeps(loc.items, loc.at_tick_end(floors, rays).items),
{
    let a = loc.with_stats();
    lemma_swept_keeps(a, floors, 0, a.counter as int, 0);
}

/// The first item that a dead actor carried comes to lie on a cell that
/// held no item, that an actor can stand on and that can be reached from
/// where the actor lay, as soon as the floor that was handed in lists
/// such a cell.
pub proof fn lemma_first_item_lands(
    loc: LocationView,
    start: Coordinate,
    item: crate::item::AnyItem,
    floor: Seq<Coordinate>,
    j: int,
)
    requires
        loc.lands(start, floor, j),
    ensures
        ({
            let n = loc.landing(start, floor, 0);
            let after = loc.with_dropped(start, item, floor);
            &&& 0 <= n <= j
            &&& !loc.items.contains_key(floor[n])
            &&& after.items.contains_key(floor[n]) && after.items[floor[n]] == item
            &&& loc.tile(floor[n]).kind.walkable()
            &&& exists|path: Seq<Coordinate>|
                is_way(loc.map, path) && #[trigger] path.first() == start && path.last()
                    == floor[n]
        }),
{
    lemma_dropped_lands(loc, start, item, floor, 0);
    let n = loc.landing(start, floor, 0);
    if n > j {
        assert(!loc.lands(start, floor, j));
    }
    lemma_walked_is_reachable(loc, start, floor, n);
}

} // verus!
