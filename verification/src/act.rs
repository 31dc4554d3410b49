//! How a location resolves the action of one actor.

use vstd::prelude::*;
use crate::action::Action;
use crate::actor::cells;
use crate::actor::Actor;
use crate::actor::ActorView;
use crate::actor::Id;
use crate::dice::roll;
use crate::dice::roll_armor;
use crate::hex::lemma_world_within_reach;
use crate::hex::Coordinate;
use crate::hex::Direction;
use crate::hex::Position;
use crate::location::lemma_views;
use crate::location::Location;
use crate::location::LocationView;
use crate::tile::Kind;
use crate::tile::Tile;

verus! {

/// The lines of sight that a list of lists of cells stands for.
pub open spec fn lines(sights: Seq<Vec<Coordinate>>) -> Seq<Seq<Coordinate>> {
    sights.map_values(|v: Vec<Coordinate>| v@)
}

/// The cells of the `i`-th of the lines of sight `sights`; none where
/// there is no `i`-th.
pub open spec fn sight_of(sights: Seq<Seq<Coordinate>>, i: int) -> Set<Coordinate> {
    if 0 <= i < sights.len() {
        cells(sights[i])
    } else {
        Set::empty()
    }
}

/// The line of sight from the position `pos`, which an actor has reached
/// by an action that tried the positions `cands`: that of the candidate
/// which `pos` is, and `here`, the line of sight from where the actor
/// started, where it is none of them.
pub open spec fn sight_at(
    pos: Position,
    here: Seq<Coordinate>,
    cands: Seq<Position>,
    sights: Seq<Seq<Coordinate>>,
) -> Set<Coordinate> {
    if cands.len() > 1 && pos == cands[1] {
        sight_of(sights, 1)
    } else if cands.len() > 0 && pos == cands[0] {
        sight_of(sights, 0)
    } else {
        cells(here)
    }
}

/// The direction in which `action` attacks, for an actor that faces
/// `facing`.
pub open spec fn attack_dir(facing: Direction, action: Action) -> Direction {
    match action {
        Action::Move(a) => facing.turned(a),
        _ => facing,
    }
}

impl LocationView {
    /// The location after the actor `id` has done what `action` does on
    /// the spot: picked up the item in front of it, switched an item, or
    /// taken the stairs that it stands on.
    pub open spec fn stay(self, id: Id, action: Action) -> LocationView {
        let a = self.actors[id];
        match action {
            Action::Pick => if self.items.contains_key(a.head()) {
                LocationView {
                    items: self.items.remove(a.head()),
                    actors: self.actors.insert(id, a.with_item(self.items[a.head()])),
                    ..self
                }
            } else {
                self
            },
            Action::Equip(ch) => self.with_actor(id, a.switched(ch)),
            Action::Descend => if self.tile(a.pos.coord).kind == Kind::Stairs {
                self.with_actor(id, ActorView { descending: true, ..a })
            } else {
                self
            },
            _ => self,
        }
    }

    /// Whether the actor `id`, trying to reach `cand` by `action`, runs
    /// into an occupied cell and so attacks.
    pub open spec fn meets(self, id: Id, action: Action, cand: Position) -> bool {
        action.may_attack() && self.actors[id].pos.coord != cand.coord && self.occupied(
            cand.coord,
        )
    }

    /// Whether the actor `id` has someone to strike on the cell of `cand`:
    /// it is ready to attack, and the cell is that of another actor of
    /// the table that is alive.
    pub open spec fn strikes_at(self, id: Id, cand: Position) -> bool {
        let t = self.index[cand.coord];
        &&& self.actors[id].can_attack()
        &&& t != id
        &&& self.actors.contains_key(t)
        &&& !self.actors[t].is_dead()
    }

    /// The location after the actor `id` has attacked whoever the
    /// occupied cell of `cand` stands for, when the rolls gave `hit` and
    /// `absorbed`; the location unchanged where the actor has no one to
    /// strike there.
    pub open spec fn struck(
        self,
        id: Id,
        action: Action,
        cand: Position,
        hit: bool,
        absorbed: int,
    ) -> LocationView {
        if self.strikes_at(id, cand) {
            let a = self.actors[id];
            let t = self.index[cand.coord];
            let target = self.actors[t];
            let dir = attack_dir(a.pos.dir, action);
            LocationView {
                actors: self.actors.insert(id, a.after_attacking(dir, target, hit, absorbed)).insert(
                    t,
                    target.after_attacked(dir, a, hit, absorbed),
                ),
                ..self
            }
        } else {
            self
        }
    }

    /// The location with the closed door in the cell `c` opened.
    pub open spec fn door_opened(self, c: Coordinate) -> LocationView {
        if self.tile(c).kind == Kind::Door(false) {
            LocationView {
                map: self.map.insert(c, Tile { kind: Kind::Door(true), ..self.tile(c) }),
                ..self
            }
        } else {
            self
        }
    }

    /// The location after the actor `id` has turned or stepped to `cand`,
    /// from where its line of sight is `sight`.  A cell that the actor
    /// steps onto becomes occupied; the one that it leaves stays so.
    pub open spec fn gone(self, id: Id, cand: Position, sight: Set<Coordinate>) -> LocationView {
        let a = self.actors[id];
        LocationView {
            actors: self.actors.insert(id, a.moved_to(cand, sight)),
            index: if a.pos.coord == cand.coord {
                self.index
            } else {
                self.index.insert(cand.coord, id)
            },
            ..self
        }
    }

    /// The location after the actor `id` has tried to reach `cand` by
    /// `action`, and whether that ends the action.  In this order: where
    /// `cand` is where the actor is, it does what the action does on the
    /// spot; where it runs into an occupied cell, it attacks, and the
    /// action ends; a closed door in the cell opens, and the action ends;
    /// on its own cell the actor turns; onto a passable cell it steps;
    /// else nothing happens.  `sight` is the line of sight from `cand`;
    /// `hit` and `absorbed` are what the rolls of an attack give.
    #[verifier::opaque]
    pub open spec fn step(
        self,
        id: Id,
        action: Action,
        cand: Position,
        sight: Set<Coordinate>,
        hit: bool,
        absorbed: int,
    ) -> (LocationView, bool) {
        let a = self.actors[id];
        if a.pos == cand {
            (self.stay(id, action), false)
        } else if self.meets(id, action, cand) {
            (self.struck(id, action, cand, hit, absorbed), true)
        } else if self.tile(cand.coord).kind == Kind::Door(false) {
            (self.door_opened(cand.coord), true)
        } else if a.pos.coord == cand.coord || self.passable(cand.coord) {
            (self.gone(id, cand, sight), false)
        } else {
            (self, false)
        }
    }

    /// The location after the actor `id` has tried the positions `cands`
    /// from the `from`-th on, one after the other, until one ended the
    /// action.
    pub open spec fn resolve(
        self,
        id: Id,
        action: Action,
        cands: Seq<Position>,
        sights: Seq<Seq<Coordinate>>,
        hit: bool,
        absorbed: int,
        from: int,
    ) -> LocationView
        decreases cands.len() - from,
    {
        if from < 0 || from >= cands.len() {
            self
        } else {
            let (next, stop) = self.step(
                id,
                action,
                cands[from],
                sight_of(sights, from),
                hit,
                absorbed,
            );
            if stop {
                next
            } else {
                next.resolve(id, action, cands, sights, hit, absorbed, from + 1)
            }
        }
    }

    /// Whether `hit` and `absorbed` can be the rolls of the attack that the
    /// actor `id` makes when it tries to reach `cand` by `action`; any
    /// rolls can be where it makes none.
    pub open spec fn step_rolls_fit(
        self,
        id: Id,
        action: Action,
        cand: Position,
        hit: bool,
        absorbed: int,
    ) -> bool {
        let a = self.actors[id];
        a.pos != cand && self.meets(id, action, cand) && self.strikes_at(id, cand)
            ==> a.can_strike(
            attack_dir(a.pos.dir, action),
            self.actors[self.index[cand.coord]],
            hit,
            absorbed,
        )
    }

    /// Whether `hit` and `absorbed` can be the rolls of the attack that the
    /// actor `id` makes while it tries the positions `cands` from the
    /// `from`-th on; any rolls can be where it makes none.
    pub open spec fn rolls_fit(
        self,
        id: Id,
        action: Action,
        cands: Seq<Position>,
        sights: Seq<Seq<Coordinate>>,
        hit: bool,
        absorbed: int,
        from: int,
    ) -> bool
        decreases cands.len() - from,
    {
        if from < 0 || from >= cands.len() {
            true
        } else {
            let (next, stop) = self.step(
                id,
                action,
                cands[from],
                sight_of(sights, from),
                hit,
                absorbed,
            );
            &&& self.step_rolls_fit(id, action, cands[from], hit, absorbed)
            &&& stop || next.rolls_fit(id, action, cands, sights, hit, absorbed, from + 1)
        }
    }

    /// Whether `hit` and `absorbed` can be the rolls of the attack that the
    /// actor `id` makes in its turn with `action`: an attack without
    /// accuracy never hits, an attack with accuracy on a target without
    /// evasion always does, and the armour takes no more than its class.
    /// Any rolls can be where the turn brings no attack.
    pub open spec fn can_roll_in_turn(
        self,
        id: Id,
        action: Action,
        sights: Seq<Seq<Coordinate>>,
        hit: bool,
        absorbed: int,
    ) -> bool {
        let a = self.actors[id];
        a.can_perform_action() ==> {
            let started = self.with_actor(id, a.at_turn_start());
            started.rolls_fit(
                id,
                action,
                started.actors[id].targets(action),
                sights,
                hit,
                absorbed,
                0,
            )
        }
    }

    /// The location after the turn of the actor `id` with the action
    /// `action`.  An actor that is dead or held back by its cooldown does
    /// nothing.  Any other starts its turn, tries the positions that the
    /// action aims at, takes in what it sees if it is not where the tick
    /// began, and does the bookkeeping of the action.  `here` is the
    /// line of sight from where the actor stands, `sights` those from the
    /// positions that the action aims at; `hit` and `absorbed` are what
    /// the rolls of an attack give.
    #[verifier::opaque]
    pub open spec fn acted(
        self,
        id: Id,
        action: Action,
        here: Seq<Coordinate>,
        sights: Seq<Seq<Coordinate>>,
        hit: bool,
        absorbed: int,
    ) -> LocationView {
        let a = self.actors[id];
        if !a.can_perform_action() {
            self
        } else {
            let started = self.with_actor(id, a.at_turn_start());
            let cands = started.actors[id].targets(action);
            let moved = started.resolve(id, action, cands, sights, hit, absorbed, 0);
            let b = moved.actors[id];
            let sight = sight_at(b.pos, here, cands, sights);
            moved.with_actor(
                id,
                b.at_turn_end(moved.light_map, moved.map, sight).after_action(action),
            )
        }
    }

    /// The location after the actor `id` has sat out its turn: its turn
    /// starts and ends, with `here` the line of sight from where it
    /// stands.
    pub open spec fn skipped(self, id: Id, here: Seq<Coordinate>) -> LocationView {
        self.with_actor(
            id,
            self.actors[id].at_turn_start().at_turn_end(self.light_map, self.map, cells(here)),
        )
    }
}

/// Trying one position keeps a location well-formed, keeps the table's
/// actors in the table, and leaves everything but the actors, the
/// occupied cells, the terrain and the floor as it was.
pub proof fn lemma_step_wf(
    loc: LocationView,
    id: Id,
    action: Action,
    cand: Position,
    sight: Set<Coordinate>,
    hit: bool,
    absorbed: int,
)
    requires
        loc.wf(),
        loc.actors.contains_key(id),
    ensures
        loc.step(id, action, cand, sight, hit, absorbed).0.wf(),
        loc.step(id, action, cand, sight, hit, absorbed).0.actors.dom() == loc.actors.dom(),
        loc.step(id, action, cand, sight, hit, absorbed).0.counter == loc.counter,
        loc.step(id, action, cand, sight, hit, absorbed).0.dead == loc.dead,
        loc.step(id, action, cand, sight, hit, absorbed).0.light_map == loc.light_map,
        loc.step(id, action, cand, sight, hit, absorbed).0.level == loc.level,
        loc.step(id, action, cand, sight, hit, absorbed).0.turn == loc.turn,
        loc.step(id, action, cand, sight, hit, absorbed).0.player_id == loc.player_id,
{
    reveal(LocationView::step);
    let next = loc.step(id, action, cand, sight, hit, absorbed).0;
    let a = loc.actors[id];
    assert(next.actors.dom() =~= loc.actors.dom());
    assert forall|i: Id| #[trigger] next.actors.contains_key(i) implies next.actors[i].pos.coord
        == if i == id && a.pos != cand && !loc.meets(id, action, cand) && loc.tile(
        cand.coord,
    ).kind != Kind::Door(false) && (a.pos.coord == cand.coord || loc.passable(cand.coord)) {
        cand.coord
    } else {
        loc.actors[i].pos.coord
    } by {}
    assert forall|i: Id| #[trigger] next.actors.contains_key(i) implies {
        &&& i < next.counter
        &&& next.actors[i].pos.coord.in_world()
        &&& next.index.contains_key(next.actors[i].pos.coord)
        &&& next.index[next.actors[i].pos.coord] == i
    } by {
        assert(loc.actors.contains_key(i));
        if loc.passable(cand.coord) {
            assert(loc.map.contains_key(cand.coord));
        }
    }
}

/// Trying the positions of an action one after the other keeps a
/// location well-formed and keeps the table's actors in the table.
pub proof fn lemma_resolve_wf(
    loc: LocationView,
    id: Id,
    action: Action,
    cands: Seq<Position>,
    sights: Seq<Seq<Coordinate>>,
    hit: bool,
    absorbed: int,
    from: int,
)
    requires
        loc.wf(),
        loc.actors.contains_key(id),
    ensures
        loc.resolve(id, action, cands, sights, hit, absorbed, from).wf(),
        loc.resolve(id, action, cands, sights, hit, absorbed, from).actors.dom()
            == loc.actors.dom(),
        loc.resolve(id, action, cands, sights, hit, absorbed, from).counter == loc.counter,
        loc.resolve(id, action, cands, sights, hit, absorbed, from).dead == loc.dead,
        loc.resolve(id, action, cands, sights, hit, absorbed, from).light_map == loc.light_map,
        loc.resolve(id, action, cands, sights, hit, absorbed, from).level == loc.level,
        loc.resolve(id, action, cands, sights, hit, absorbed, from).turn == loc.turn,
        loc.resolve(id, action, cands, sights, hit, absorbed, from).player_id == loc.player_id,
    decreases cands.len() - from,
{
    if 0 <= from < cands.len() {
        let (next, stop) = loc.step(
            id,
            action,
            cands[from],
            sight_of(sights, from),
            hit,
            absorbed,
        );
        lemma_step_wf(loc, id, action, cands[from], sight_of(sights, from), hit, absorbed);
        if !stop {
            assert(next.actors.contains_key(id));
            lemma_resolve_wf(next, id, action, cands, sights, hit, absorbed, from + 1);
        }
    }
}

/// Lets `actor` attack `target` in the direction `dir`.  Returns the rolls
/// that the attack has used: those of `fixed` where it holds some, else
/// rolls made here.
fn strike(actor: &mut Actor, target: &mut Actor, dir: Direction, fixed: Option<(bool, i32)>) -> (rolls:
    (bool, i32))
    ensures
        final(actor)@ == old(actor)@.after_attacking(
            dir,
            old(target)@,
            rolls.0,
            rolls.1 as int,
        ),
        final(target)@ == old(target)@.after_attacked(
            dir,
            old(actor)@,
            rolls.0,
            rolls.1 as int,
        ),
        fixed matches Some(f) ==> rolls == f,
        fixed is None ==> old(actor)@.can_strike(dir, old(target)@, rolls.0, rolls.1 as int),
{
    let rolls = match fixed {
        Some(f) => f,
        None => {
            let (acc, _, _) = actor.blow(dir, target);
            (roll(acc, target.stats.base.ev), roll_armor(target.stats.base.ac))
        },
    };
    actor.strikes(dir, target, rolls.0, rolls.1);
    rolls
}

impl Location {
    /// Lets the actor `id`, taken out of the table as `actor`, do what
    /// `action` does on the spot.
    fn do_stay(&mut self, id: Id, actor: &mut Actor, action: Action)
        requires
            !old(self)@.actors.contains_key(id),
            old(actor)@.pos.coord.in_world(),
        ensures
            final(self)@.with_actor(id, final(actor)@) == old(self)@.with_actor(
                id,
                old(actor)@,
            ).stay(id, action),
            !final(self)@.actors.contains_key(id),
    {
        let ghost before = self@.with_actor(id, actor@);
        proof {
            lemma_world_within_reach(actor.pos.coord, actor.pos.dir, actor.pos.dir);
            assert(before.actors[id] == actor@);
        }
        match action {
            Action::Pick => {
                let head = actor.head();
                match self.pick_item(head) {
                    Some(item) => {
                        actor.add_item(item);
                    },
                    None => {
                        assert(self@.items =~= old(self)@.items);
                    },
                }
            },
            Action::Equip(ch) => {
                actor.equip_switch(ch);
            },
            Action::Descend => {
                if self.tile(actor.coord()).is_stairs() {
                    actor.descend();
                }
            },
            _ => {},
        }
        proof {
            let want = before.stay(id, action);
            let got = self@.with_actor(id, actor@);
            assert(got.actors =~= want.actors);
        }
    }

    /// Lets the actor `id`, taken out of the table as `actor`, attack
    /// whoever the occupied cell `at` stands for.  Returns the rolls that
    /// the attack has used: those of `fixed` where it holds some, else
    /// rolls made here.
    fn do_attack(
        &mut self,
        id: Id,
        actor: &mut Actor,
        action: Action,
        cand: Position,
        fixed: Option<(bool, i32)>,
    ) -> (rolls: (bool, i32))
        requires
            !old(self)@.actors.contains_key(id),
            old(self)@.occupied(cand.coord),
        ensures
            final(self)@.with_actor(id, final(actor)@) == old(self)@.with_actor(
                id,
                old(actor)@,
            ).struck(id, action, cand, rolls.0, rolls.1 as int),
            !final(self)@.actors.contains_key(id),
            fixed matches Some(f) ==> rolls == f,
            fixed is None && old(self)@.with_actor(id, old(actor)@).strikes_at(id, cand) ==> old(
                actor,
            )@.can_strike(
                attack_dir(old(actor)@.pos.dir, action),
                old(self)@.actors[old(self)@.index[cand.coord]],
                rolls.0,
                rolls.1 as int,
            ),
    {
        let ghost before = self@.with_actor(id, actor@);
        let mut rolls: (bool, i32) = match fixed {
            Some(f) => f,
            None => (false, 0),
        };
        proof {
            assert(before.actors[id] == actor@);
            assert(before.actors.remove(id) =~= self@.actors);
        }
        if !actor.can_attack() {
            return rolls;
        }
        let tid = match self.actors_coord_to_id.get(cand.coord) {
            Some(t) => *t,
            None => id,
        };
        if tid == id {
            return rolls;
        }
        let ghost table = self.actors_byid@;
        proof {
            lemma_views(table, tid, table[tid]);
        }
        match self.actors_byid.remove(&tid) {
            Some(target) => {
                let mut target = target;
                let ghost was = target;
                if !target.is_dead() {
                    let dir = match action {
                        Action::Move(a) => actor.pos.dir.turn(a),
                        _ => actor.pos.dir,
                    };
                    rolls = strike(actor, &mut target, dir, fixed);
                }
                self.actors_byid.insert(tid, target);
                proof {
                    assert(table.remove(tid).insert(tid, target) =~= table.insert(tid, target));
                    lemma_views(table, tid, target);
                    let want = before.struck(id, action, cand, rolls.0, rolls.1 as int);
                    let got = self@.with_actor(id, actor@);
                    assert(before.actors[tid] == was@);
                    assert(got.actors =~= want.actors);
                }
            },
            None => {
                proof {
                    assert(self.actors_byid@ =~= table);
                }
            },
        }
        rolls
    }

    /// Lets the actor `id`, taken out of the table as `actor`, turn or
    /// step to `cand`, where nothing keeps it from that.
    fn do_move(&mut self, id: Id, actor: &mut Actor, cand: Position, sight: &Vec<Coordinate>)
        requires
            !old(self)@.actors.contains_key(id),
            cand.coord.in_world(),
        ensures
            final(self)@.with_actor(id, final(actor)@) == old(self)@.with_actor(
                id,
                old(actor)@,
            ).gone(id, cand, cells(sight@)),
            !final(self)@.actors.contains_key(id),
    {
        let ghost before = self@.with_actor(id, actor@);
        proof {
            assert(before.actors[id] == actor@);
        }
        let turn = actor.pos.coord == cand.coord;
        actor.moved(cand, sight);
        if !turn {
            self.actors_coord_to_id.insert(cand.coord, id);
        }
        proof {
            let want = before.gone(id, cand, cells(sight@));
            let got = self@.with_actor(id, actor@);
            assert(got.actors =~= want.actors);
        }
    }

    /// Lets the actor `id`, taken out of the table as `actor`, try to
    /// reach `cand` by `action`.  Returns whether that ends the action,
    /// and the rolls that an attack has used: those of `fixed` where it
    /// holds some, else rolls made here.
    fn try_position(
        &mut self,
        id: Id,
        actor: &mut Actor,
        action: Action,
        cand: Position,
        sight: &Vec<Coordinate>,
        fixed: Option<(bool, i32)>,
    ) -> (r: (bool, bool, i32))
        requires
            !old(self)@.actors.contains_key(id),
            old(actor)@.pos.coord.in_world(),
            forall|c: Coordinate| #[trigger] old(self)@.map.contains_key(c) ==> c.in_world(),
        ensures
            (final(self)@.with_actor(id, final(actor)@), r.0) == old(self)@.with_actor(
                id,
                old(actor)@,
            ).step(id, action, cand, cells(sight@), r.1, r.2 as int),
            !final(self)@.actors.contains_key(id),
            fixed matches Some(f) ==> r.1 == f.0 && r.2 == f.1,
            fixed is None ==> old(self)@.with_actor(id, old(actor)@).step_rolls_fit(
                id,
                action,
                cand,
                r.1,
                r.2 as int,
            ),
    {
        let ghost before = self@.with_actor(id, actor@);
        let rolls: (bool, i32) = match fixed {
            Some(f) => f,
            None => (false, 0),
        };
        proof {
            assert(before.actors[id] == actor@);
            reveal(LocationView::step);
        }
        if actor.pos == cand {
            self.do_stay(id, actor, action);
            (false, rolls.0, rolls.1)
        } else if action.could_be_attack() && !(actor.pos.coord == cand.coord) && self.is_occupied(
            cand.coord,
        ) {
            let used = self.do_attack(id, actor, action, cand, fixed);
            (true, used.0, used.1)
        } else if self.tile(cand.coord).is_closed_door() {
            self.map.open_door(cand.coord);
            (true, rolls.0, rolls.1)
        } else if actor.pos.coord == cand.coord || self.is_passable(cand.coord) {
            self.do_move(id, actor, cand, sight);
            (false, rolls.0, rolls.1)
        } else {
            (false, rolls.0, rolls.1)
        }
    }

    /// Takes the actor `id` out of the table for its turn.
    pub(crate) fn take_out(&mut self, id: Id) -> (actor: Actor)
        requires
            old(self)@.actors.contains_key(id),
        ensures
            !final(self)@.actors.contains_key(id),
            final(self)@.with_actor(id, actor@) == old(self)@,
            actor@ == old(self)@.actors[id],
            final(self)@ == (LocationView { actors: old(self)@.actors.remove(id), ..old(self)@ }),
    {
        let ghost table = self.actors_byid@;
        proof {
            lemma_views(table, id, table[id]);
        }
        let actor = self.actors_byid.remove(&id).unwrap();
        proof {
            assert(self@.with_actor(id, actor@).actors =~= old(self)@.actors);
        }
        actor
    }

    /// Puts the actor `id` back into the table after its turn.
    pub(crate) fn put_back(&mut self, id: Id, actor: Actor)
        ensures
            final(self)@ == old(self)@.with_actor(id, actor@),
    {
        let ghost table = self.actors_byid@;
        self.actors_byid.insert(id, actor);
        proof {
            lemma_views(table, id, actor);
        }
    }

    /// Lets the actor `id`, taken out of the table as `actor`, try the
    /// positions `cands` that its action aims at.
    fn try_all(
        &mut self,
        id: Id,
        actor: &mut Actor,
        action: Action,
        cands: &Vec<Position>,
        sights: &Vec<Vec<Coordinate>>,
        fixed: Option<(bool, i32)>,
    ) -> (used: (bool, i32))
        requires
            !old(self)@.actors.contains_key(id),
            old(self)@.with_actor(id, old(actor)@).wf(),
            1 <= cands@.len() <= 2,
        ensures
            final(self)@.with_actor(id, final(actor)@) == old(self)@.with_actor(
                id,
                old(actor)@,
            ).resolve(id, action, cands@, lines(sights@), used.0, used.1 as int, 0),
            !final(self)@.actors.contains_key(id),
            fixed matches Some(f) ==> used == f,
            fixed is None ==> old(self)@.with_actor(id, old(actor)@).rolls_fit(
                id,
                action,
                cands@,
                lines(sights@),
                used.0,
                used.1 as int,
                0,
            ),
    {
        let ghost started = self@.with_actor(id, actor@);
        let ghost all = lines(sights@);
        let nothing: Vec<Coordinate> = Vec::new();
        proof {
            assert(cells(nothing@) =~= Set::<Coordinate>::empty());
            assert(started.actors.contains_key(id));
            assert(started.actors[id] == actor@);
        }
        let first = if sights.len() > 0 {
            &sights[0]
        } else {
            &nothing
        };
        proof {
            assert(self@.map == started.map);
        }
        let r0 = self.try_position(id, actor, action, cands[0], first, fixed);
        let ghost mid = self@.with_actor(id, actor@);
        proof {
            assert(cells(first@) == sight_of(all, 0));
            reveal_with_fuel(LocationView::resolve, 3);
            reveal_with_fuel(LocationView::rolls_fit, 3);
        }
        if r0.0 || cands.len() == 1 {
            (r0.1, r0.2)
        } else {
            let second = if sights.len() > 1 {
                &sights[1]
            } else {
                &nothing
            };
            proof {
                lemma_step_wf(started, id, action, cands@[0], sight_of(all, 0), r0.1, r0.2 as int);
                assert(mid.actors.contains_key(id));
                assert(mid.actors[id] == actor@);
                assert(self@.map == mid.map);
            }
            let r1 = self.try_position(id, actor, action, cands[1], second, fixed);
            proof {
                assert(cells(second@) == sight_of(all, 1));
                lemma_step_rolls(
                    started,
                    id,
                    action,
                    cands@[0],
                    sight_of(all, 0),
                    r0.1,
                    r0.2 as int,
                    r1.1,
                    r1.2 as int,
                );
            }
            (r1.1, r1.2)
        }
    }

    /// The turn of the actor `id` with the action `action`.  Returns the
    /// rolls that an attack has used: those of `fixed` where it holds
    /// some, else rolls made here.
    fn act_rolled(
        &mut self,
        id: Id,
        action: Action,
        here: &Vec<Coordinate>,
        sights: &Vec<Vec<Coordinate>>,
        fixed: Option<(bool, i32)>,
    ) -> (used: (bool, i32))
        requires
            old(self)@.wf(),
            old(self)@.actors.contains_key(id),
        ensures
            final(self)@ == old(self)@.acted(
                id,
                action,
                here@,
                lines(sights@),
                used.0,
                used.1 as int,
            ),
            fixed matches Some(f) ==> used == f,
            fixed is None ==> old(self)@.can_roll_in_turn(
                id,
                action,
                lines(sights@),
                used.0,
                used.1 as int,
            ),
    {
        let rolls: (bool, i32) = match fixed {
            Some(f) => f,
            None => (false, 0),
        };
        let mut actor = self.take_out(id);
        proof {
            reveal(LocationView::acted);
        }
        if !actor.can_perform_action() {
            self.put_back(id, actor);
            return rolls;
        }
        actor.pre_own_tick();
        let ghost started = self@.with_actor(id, actor@);
        let ghost all = lines(sights@);
        proof {
            assert(started == old(self)@.with_actor(id, old(self)@.actors[id].at_turn_start())) by {
                assert(started.actors =~= old(self)@.actors.insert(id, actor@));
            }
            lemma_started_wf(old(self)@, id);
        }
        let cands = actor.pos_after_action(action);
        let used = self.try_all(id, &mut actor, action, &cands, sights, fixed);
        let ghost moved = self@.with_actor(id, actor@);
        proof {
            lemma_resolve_wf(started, id, action, cands@, all, used.0, used.1 as int, 0);
            assert(moved.actors.contains_key(id));
            assert(moved.actors[id] == actor@);
        }
        let nothing: Vec<Coordinate> = Vec::new();
        proof {
            assert(cells(nothing@) =~= Set::<Coordinate>::empty());
        }
        let sight = if cands.len() > 1 && actor.pos == cands[1] {
            if sights.len() > 1 {
                &sights[1]
            } else {
                &nothing
            }
        } else if actor.pos == cands[0] {
            if sights.len() > 0 {
                &sights[0]
            } else {
                &nothing
            }
        } else {
            here
        };
        proof {
            assert(cells(sight@) == sight_at(actor@.pos, here@, cands@, all));
        }
        actor.post_own_tick(self, sight);
        actor.post_action(action);
        self.put_back(id, actor);
        proof {
            let want = old(self)@.acted(id, action, here@, all, used.0, used.1 as int);
            assert(self@.actors =~= want.actors);
        }
        used
    }

    /// The turn of the actor `id` with the action `action`.  `here` is
    /// the line of sight from where the actor stands, `sights` those from
    /// the positions that the action aims at, in the order in which
    /// `Actor::pos_after_action` gives them.  An attack rolls whether it
    /// hits and what the armour takes of it.
    pub fn act(
        &mut self,
        id: Id,
        action: Action,
        here: &Vec<Coordinate>,
        sights: &Vec<Vec<Coordinate>>,
    )
        requires
            old(self)@.wf(),
            old(self)@.actors.contains_key(id),
        ensures
            final(self)@.wf(),
            exists|hit: bool, absorbed: int|
                old(self)@.can_roll_in_turn(id, action, lines(sights@), hit, absorbed)
                    && final(self)@ == #[trigger] old(self)@.acted(
                    id,
                    action,
                    here@,
                    lines(sights@),
                    hit,
                    absorbed,
                ),
    {
        let used = self.act_rolled(id, action, here, sights, None);
        proof {
            lemma_act_wf(old(self)@, id, action, here@, lines(sights@), used.0, used.1 as int);
            assert(self@ == old(self)@.acted(
                id,
                action,
                here@,
                lines(sights@),
                used.0,
                used.1 as int,
            ));
        }
    }

    /// The turn of the actor `id` with the action `action`, with the
    /// rolls of an attack already made: `hit` tells whether it hits,
    /// `absorbed` what the armour takes of the damage.
    pub fn act_with(
        &mut self,
        id: Id,
        action: Action,
        here: &Vec<Coordinate>,
        sights: &Vec<Vec<Coordinate>>,
        hit: bool,
        absorbed: i32,
    )
        requires
            old(self)@.wf(),
            old(self)@.actors.contains_key(id),
        ensures
            final(self)@.wf(),
            final(self)@ == old(self)@.acted(
                id,
                action,
                here@,
                lines(sights@),
                hit,
                absorbed as int,
            ),
    {
        self.act_rolled(id, action, here, sights, Some((hit, absorbed)));
        proof {
            lemma_act_wf(old(self)@, id, action, here@, lines(sights@), hit, absorbed as int);
        }
    }

    /// Lets the actor `id` sit out its turn: its cooldown runs, and it
    /// takes in what it sees if it is not where the tick began.  `here`
    /// is the line of sight from where the actor stands.
    pub fn skip_act(&mut self, id: Id, here: &Vec<Coordinate>)
        requires
            old(self)@.wf(),
            old(self)@.actors.contains_key(id),
        ensures
            final(self)@.wf(),
            final(self)@ == old(self)@.skipped(id, here@),
    {
        let mut actor = self.take_out(id);
        actor.pre_own_tick();
        actor.post_own_tick(self, here);
        self.put_back(id, actor);
        proof {
            let want = old(self)@.skipped(id, here@);
            assert(self@.actors =~= want.actors);
            lemma_skip_wf(old(self)@, id, here@);
        }
    }
}

/// A try that does not end the action comes out the same whatever the
/// rolls are.
pub proof fn lemma_step_rolls(
    loc: LocationView,
    id: Id,
    action: Action,
    cand: Position,
    sight: Set<Coordinate>,
    hit: bool,
    absorbed: int,
    other_hit: bool,
    other_absorbed: int,
)
    ensures
        !loc.step(id, action, cand, sight, hit, absorbed).1 ==> loc.step(
            id,
            action,
            cand,
            sight,
            other_hit,
            other_absorbed,
        ) == loc.step(id, action, cand, sight, hit, absorbed) && loc.step_rolls_fit(
            id,
            action,
            cand,
            other_hit,
            other_absorbed,
        ),
{
    reveal(LocationView::step);
}

/// Starting the turn of an actor keeps a well-formed location well-formed.
pub proof fn lemma_started_wf(loc: LocationView, id: Id)
    requires
        loc.wf(),
        loc.actors.contains_key(id),
    ensures
        loc.with_actor(id, loc.actors[id].at_turn_start()).wf(),
        loc.with_actor(id, loc.actors[id].at_turn_start()).actors.dom() == loc.actors.dom(),
{
    let started = loc.with_actor(id, loc.actors[id].at_turn_start());
    assert(started.actors.dom() =~= loc.actors.dom());
    assert forall|i: Id| #[trigger] started.actors.contains_key(i) implies {
        &&& i < started.counter
        &&& started.actors[i].pos.coord.in_world()
        &&& started.index.contains_key(started.actors[i].pos.coord)
        &&& started.index[started.actors[i].pos.coord] == i
    } by {
        assert(loc.actors.contains_key(i));
    }
}

/// The first law of the location, for the turn of an actor: a turn keeps a
/// well-formed location well-formed, so that afterwards, as before, every
/// actor of the table is found through the cell it stands on, and no two
/// actors stand on one cell.
pub proof fn lemma_act_wf(
    loc: LocationView,
    id: Id,
    action: Action,
    here: Seq<Coordinate>,
    sights: Seq<Seq<Coordinate>>,
    hit: bool,
    absorbed: int,
)
    requires
        loc.wf(),
        loc.actors.contains_key(id),
    ensures
        loc.acted(id, action, here, sights, hit, absorbed).wf(),
        loc.acted(id, action, here, sights, hit, absorbed).actors.dom() == loc.actors.dom(),
{
    reveal(LocationView::acted);
    let a = loc.actors[id];
    let after = loc.acted(id, action, here, sights, hit, absorbed);
    if a.can_perform_action() {
        let started = loc.with_actor(id, a.at_turn_start());
        lemma_started_wf(loc, id);
        let cands = started.actors[id].targets(action);
        let moved = started.resolve(id, action, cands, sights, hit, absorbed, 0);
        lemma_resolve_wf(started, id, action, cands, sights, hit, absorbed, 0);
        assert(moved.actors.contains_key(id));
        assert(after.actors.dom() =~= loc.actors.dom());
        assert forall|i: Id| #[trigger] after.actors.contains_key(i) implies {
            &&& i < after.counter
            &&& after.actors[i].pos.coord.in_world()
            &&& after.index.contains_key(after.actors[i].pos.coord)
            &&& after.index[after.actors[i].pos.coord] == i
        } by {
            assert(moved.actors.contains_key(i));
        }
    }
}

/// Sitting out a turn keeps a well-formed location well-formed.
pub proof fn lemma_skip_wf(loc: LocationView, id: Id, here: Seq<Coordinate>)
    requires
        loc.wf(),
        loc.actors.contains_key(id),
    ensures
        loc.skipped(id, here).wf(),
        loc.skipped(id, here).actors.dom() == loc.actors.dom(),
{
    let after = loc.skipped(id, here);
    assert(after.actors.dom() =~= loc.actors.dom());
    assert forall|i: Id| #[trigger] after.actors.contains_key(i) implies {
        &&& i < after.counter
        &&& after.actors[i].pos.coord.in_world()
        &&& after.index.contains_key(after.actors[i].pos.coord)
        &&& after.index[after.actors[i].pos.coord] == i
    } by {
        assert(loc.actors.contains_key(i));
    }
}

} // verus!
