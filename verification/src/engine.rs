//! The driver of the ticks: who acts when.

use vstd::prelude::*;
use crate::act::lines;
use crate::action::Action;
use crate::actor::cells;
use crate::actor::Actor;
use crate::actor::Id;
use crate::hex::Coordinate;
use crate::location::Location;
use crate::location::LocationView;
use crate::tick::beams;

verus! {

/// Drives the ticks of a location: the player acts first, then every
/// other living actor, one after the other; then the tick ends.
pub struct Engine {
    location_cur: usize,
    locations: Vec<Location>,
    ids_to_move: Vec<Id>,
}

/// The numbers `ids` without the number `id`.
pub open spec fn others(ids: Seq<Id>, id: Id) -> Seq<Id> {
    ids.filter(|i: Id| i != id)
}

impl Engine {
    /// The location that the engine drives.
    pub closed spec fn place(&self) -> LocationView {
        self.locations@[self.location_cur as int]@
    }

    /// The numbers of the actors that have yet to act in this tick; the
    /// last of them acts next.
    pub closed spec fn waiting(&self) -> Seq<Id> {
        self.ids_to_move@
    }

    /// Whether the engine is in order: it has a location, which is
    /// well-formed, and every actor that has yet to act is in its table.
    pub closed spec fn wf(&self) -> bool {
        &&& self.location_cur < self.locations@.len()
        &&& self.place().wf()
        &&& forall|i: int|
            0 <= i < self.waiting().len() ==> self.place().actors.contains_key(
                #[trigger] self.waiting()[i],
            )
    }

    /// What `wf` says of the location and of the actors that have yet to
    /// act.
    pub proof fn lemma_wf(&self)
        requires
            self.wf(),
        ensures
            self.place().wf(),
            forall|i: int|
                0 <= i < self.waiting().len() ==> self.place().actors.contains_key(
                    #[trigger] self.waiting()[i],
                ),
    {
    }

    /// An engine that drives `location`.
    pub fn new(location: Location) -> (e: Engine)
        requires
            location@.wf(),
        ensures
            e.wf(),
            e.place() == location@,
            e.waiting() == Seq::<Id>::empty(),
    {
        let mut locations: Vec<Location> = Vec::new();
        locations.push(location);
        Engine { location_cur: 0, locations, ids_to_move: Vec::new() }
    }

    /// The location that the engine drives.
    pub fn current_location(&self) -> (loc: &Location)
        requires
            self.wf(),
        ensures
            loc@ == self.place(),
    {
        &self.locations[self.location_cur]
    }

    /// The location that the engine drives, to be changed.  Whoever
    /// changes it has to leave it well-formed and has to leave the actors
    /// that have yet to act in its table.
    pub fn current_location_mut(&mut self) -> (loc: &mut Location)
        requires
            old(self).wf(),
        ensures
            loc@ == old(self).place(),
            final(self).place() == final(loc)@,
            final(self).waiting() == old(self).waiting(),
    {
        &mut self.locations[self.location_cur]
    }

    /// The number of ticks that have ended.
    pub fn turn(&self) -> (t: u64)
        requires
            self.wf(),
        ensures
            t == self.place().turn,
    {
        self.current_location().turn
    }

    /// Whether it is the player's turn: no other actor has yet to act.
    pub fn needs_player_input(&self) -> (b: bool)
        ensures
            b == (self.waiting().len() == 0),
    {
        self.ids_to_move.len() == 0
    }

    /// The actor that acts next, if it is not the player's turn.
    pub fn next_actor(&self) -> (r: Option<Id>)
        ensures
            r == if self.waiting().len() == 0 {
                None
            } else {
                Some(self.waiting().last())
            },
    {
        let n = self.ids_to_move.len();
        if n == 0 {
            None
        } else {
            Some(self.ids_to_move[n - 1])
        }
    }

    /// Puts the player's actor into the location.  `sight` is the line of
    /// sight from where it stands.
    pub fn spawn(&mut self, actor: Actor, sight: &Vec<Coordinate>) -> (id: Id)
        requires
            old(self).wf(),
            actor@.player,
            actor@.pos.coord.in_world(),
            !old(self).place().occupied(actor@.pos.coord),
            old(self).place().counter < u32::MAX,
        ensures
            final(self).wf(),
            id == old(self).place().counter,
            final(self).place() == (LocationView {
                player_id: Some(id),
                ..old(self).place().with_spawned(actor@, cells(sight@))
            }),
            final(self).waiting() == old(self).waiting(),
    {
        let id = self.locations[self.location_cur].spawn_player(actor, sight);
        proof {
            assert forall|i: int| 0 <= i < self.waiting().len() implies self.place().actors.contains_key(
                #[trigger] self.waiting()[i],
            ) by {
                assert(old(self).place().actors.contains_key(old(self).waiting()[i]));
            }
        }
        id
    }

    /// Whether the tick is over: every actor has acted.  The tick then
    /// has to be ended with `end_tick`.
    pub fn checks_after_act(&self) -> (over: bool)
        ensures
            over == (self.waiting().len() == 0),
    {
        self.ids_to_move.len() == 0
    }

    /// The player's turn, which starts a tick: every living actor runs
    /// the hook of the start of a tick; the player's actor takes its turn
    /// with `action` if it can act, and sits its turn out if it is held
    /// back by its cooldown; and every other living actor has yet to act,
    /// the one with the highest number first.  Returns whether the tick
    /// is over already.
    pub fn player_act(
        &mut self,
        action: Action,
        here: &Vec<Coordinate>,
        sights: &Vec<Vec<Coordinate>>,
    ) -> (over: bool)
        requires
            old(self).wf(),
            old(self).waiting().len() == 0,
            old(self).place().player_id matches Some(p) && old(self).place().actors.contains_key(
                p,
            ),
        ensures
            final(self).wf(),
            over == (final(self).waiting().len() == 0),
            if old(self).place().at_tick_start().actors[old(
                self,
            ).place().player_id->0].can_perform_action() {
                exists|hit: bool, absorbed: int|
                    old(self).place().at_tick_start().can_roll_in_turn(
                        old(self).place().player_id->0,
                        action,
                        lines(sights@),
                        hit,
                        absorbed,
                    ) && final(self).place() == #[trigger] old(self).place().at_tick_start().acted(
                        old(self).place().player_id->0,
                        action,
                        here@,
                        lines(sights@),
                        hit,
                        absorbed,
                    )
            } else {
                final(self).place() == old(self).place().at_tick_start().skipped(
                    old(self).place().player_id->0,
                    here@,
                )
            },
            final(self).waiting() == others(
                final(self).place().ids_upto(final(self).place().counter as int, true),
                old(self).place().player_id->0,
            ),
    {
        let player_id = self.locations[self.location_cur].player_id();
        self.locations[self.location_cur].pre_any_tick();
        proof {
            crate::laws::lemma_known_kept_at_tick_start(old(self).place());
        }
        proof {
            crate::location::lemma_views(
                self.locations@[self.location_cur as int].actors_byid@,
                player_id,
                self.locations@[self.location_cur as int].actors_byid@[player_id],
            );
        }
        let able = match self.locations[self.location_cur].actors_byid.get(&player_id) {
            Some(a) => a.can_perform_action(),
            None => false,
        };
        if able {
            self.locations[self.location_cur].act(player_id, action, here, sights);
        } else {
            self.locations[self.location_cur].skip_act(player_id, here);
        }
        let alive = self.locations[self.location_cur].actors_alive_ids();
        let mut rest: Vec<Id> = Vec::new();
        let mut i: usize = 0;
        proof {
            reveal(Seq::filter);
            assert(alive@.take(0) =~= Seq::<Id>::empty());
        }
        while i < alive.len()
            invariant
                i <= alive.len(),
                rest@ == others(alive@.take(i as int), player_id),
                forall|j: int| 0 <= j < rest@.len() ==> alive@.contains(#[trigger] rest@[j]),
            decreases alive.len() - i,
        {
            proof {
                assert(alive@.take(i as int + 1).drop_last() =~= alive@.take(i as int));
                reveal(Seq::filter);
            }
            if alive[i] != player_id {
                rest.push(alive[i]);
                proof {
                    assert forall|j: int| 0 <= j < rest@.len() implies alive@.contains(
                        #[trigger] rest@[j],
                    ) by {
                        if j == rest@.len() - 1 {
                            assert(alive@[i as int] == rest@[j]);
                        }
                    }
                }
            }
            i += 1;
        }
        proof {
            assert(alive@.take(i as int) =~= alive@);
        }
        self.ids_to_move = rest;
        self.ids_to_move.len() == 0
    }

    /// The turn of the actor that acts next: it takes its turn with
    /// `action` if it can act, and sits its turn out if it is dead or
    /// held back by its cooldown.  Returns the number of the actor.
    pub fn one_actor_act(
        &mut self,
        action: Action,
        here: &Vec<Coordinate>,
        sights: &Vec<Vec<Coordinate>>,
    ) -> (id: Id)
        requires
            old(self).wf(),
            old(self).waiting().len() > 0,
        ensures
            final(self).wf(),
            id == old(self).waiting().last(),
            final(self).waiting() == old(self).waiting().drop_last(),
            if old(self).place().actors[id].can_perform_action() {
                exists|hit: bool, absorbed: int|
                    old(self).place().can_roll_in_turn(id, action, lines(sights@), hit, absorbed)
                        && final(self).place() == #[trigger] old(self).place().acted(
                        id,
                        action,
                        here@,
                        lines(sights@),
                        hit,
                        absorbed,
                    )
            } else {
                final(self).place() == old(self).place().skipped(id, here@)
            },
    {
        let ghost before = self.place();
        let ghost queue = self.ids_to_move@;
        let id = self.ids_to_move.pop().unwrap();
        proof {
            assert(before.actors.contains_key(queue[queue.len() - 1]));
            crate::location::lemma_views(
                self.locations@[self.location_cur as int].actors_byid@,
                id,
                self.locations@[self.location_cur as int].actors_byid@[id],
            );
        }
        let able = match self.locations[self.location_cur].actors_byid.get(&id) {
            Some(a) => a.can_perform_action(),
            None => false,
        };
        if able {
            self.locations[self.location_cur].act(id, action, here, sights);
            proof {
                let (hit, absorbed) = choose|hit: bool, absorbed: int|
                    before.can_roll_in_turn(id, action, lines(sights@), hit, absorbed)
                        && self.place() == #[trigger] before.acted(
                        id,
                        action,
                        here@,
                        lines(sights@),
                        hit,
                        absorbed,
                    );
                crate::act::lemma_act_wf(before, id, action, here@, lines(sights@), hit, absorbed);
            }
        } else {
            self.locations[self.location_cur].skip_act(id, here);
            proof {
                crate::act::lemma_skip_wf(before, id, here@);
            }
        }
        proof {
            assert forall|i: int| 0 <= i < self.waiting().len() implies self.place().actors.contains_key(
                #[trigger] self.waiting()[i],
            ) by {
                assert(before.actors.contains_key(queue[i]));
            }
        }
        id
    }

    /// Ends the tick: the location runs the hook of the end of a tick,
    /// and counts the tick.  `floors` and `rays` are what
    /// `Location::post_any_tick` takes.
    pub fn end_tick(&mut self, floors: &Vec<Vec<Coordinate>>, rays: &Vec<Vec<(Coordinate, i32)>>)
        requires
            old(self).wf(),
            old(self).waiting().len() == 0,
        ensures
            final(self).wf(),
            final(self).waiting().len() == 0,
            final(self).place().settled(),
            final(self).place() == (LocationView {
                turn: if old(self).place().turn < u64::MAX {
                    (old(self).place().turn + 1) as u64
                } else {
                    old(self).place().turn
                },
                ..old(self).place().at_tick_end(lines(floors@), beams(rays@))
            }),
    {
        proof {
            crate::tick::lemma_tick_end_wf(self.place(), lines(floors@), beams(rays@));
        }
        self.locations[self.location_cur].post_any_tick(floors, rays);
        self.locations[self.location_cur].post_turn();
    }
}

} // verus!
