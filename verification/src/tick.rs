//! What a location does at the start and at the end of every tick.

use vstd::prelude::*;
use crate::actor::Actor;
use crate::actor::ActorView;
use crate::actor::Id;
use crate::actor::Noise;
use crate::coordmap::CoordMap;
use crate::hex::lemma_world_within_reach;
use crate::hex::Coordinate;
use crate::hex::Direction;
use crate::inventory::Equipment;
use crate::inventory::LetterMap;
use crate::item::AnyItem;
use crate::location::lemma_views;
use crate::location::Location;
use crate::location::LocationView;
use crate::sight::light_on;
use crate::stats::Slot;

verus! {

/// The actor `a` after the hook of the start of a tick, where `start`
/// holds, or of its end, where it does not.  A dead actor runs no hook.
pub open spec fn hooked(a: ActorView, start: bool) -> ActorView {
    if a.is_dead() {
        a
    } else if start {
        a.at_tick_start()
    } else {
        a.with_derived_stats()
    }
}

/// The table `m` with the hook run on the actors whose numbers lie below
/// `upto`.
pub open spec fn partly(m: Map<Id, ActorView>, upto: int, start: bool) -> Map<Id, ActorView> {
    Map::new(
        |i: Id| m.contains_key(i),
        |i: Id|
            if i < upto {
                hooked(m[i], start)
            } else {
                m[i]
            },
    )
}

/// The light map `m` after light of the strength `l` has fallen on the
/// cell `c`: the cell keeps the stronger of the two.
pub open spec fn brighter(m: Map<Coordinate, u32>, c: Coordinate, l: int) -> Map<Coordinate, u32> {
    if l > light_on(m, c) && l <= u32::MAX {
        m.insert(c, l as u32)
    } else {
        m
    }
}

/// The light map `m` after the light of the ray `ray` has fallen on it,
/// from the `from`-th cell of the ray on.
pub open spec fn lit_by(m: Map<Coordinate, u32>, ray: Seq<(Coordinate, i32)>, from: int) -> Map<
    Coordinate,
    u32,
>
    decreases ray.len() - from,
{
    if from < 0 || from >= ray.len() {
        m
    } else {
        lit_by(brighter(m, ray[from].0, ray[from].1 as int), ray, from + 1)
    }
}

/// Whether light of the strength `l` can fall on the cell `c` from the
/// source `lamp`, which is a cell with the reach of its light: both cells
/// lie within the world, the light has some strength, and it has lost at
/// least one point of it for every step from the source.
pub open spec fn fits(lamp: (Coordinate, i32), c: Coordinate, l: int) -> bool {
    &&& lamp.0.in_world()
    &&& c.in_world()
    &&& l >= 1
    &&& lamp.0.steps_to(c) + l <= lamp.1
}

/// The ray `ray` of the source `lamp`, without what cannot come from the
/// source.
pub open spec fn trimmed(lamp: (Coordinate, i32), ray: Seq<(Coordinate, i32)>) -> Seq<
    (Coordinate, i32),
> {
    ray.filter(|e: (Coordinate, i32)| fits(lamp, e.0, e.1 as int))
}

/// The rays `rays`, one for each of the sources `lamps` in their order,
/// each without what cannot come from its source; a ray without a source
/// counts no more than a source without a ray.
pub open spec fn trimmed_all(
    lamps: Seq<(Coordinate, i32)>,
    rays: Seq<Seq<(Coordinate, i32)>>,
) -> Seq<Seq<(Coordinate, i32)>> {
    Seq::new(
        if lamps.len() <= rays.len() {
            lamps.len()
        } else {
            rays.len()
        },
        |i: int| trimmed(lamps[i], rays[i]),
    )
}

/// The rays that a list of lists of lit cells stands for.
pub open spec fn beams(rays: Seq<Vec<(Coordinate, i32)>>) -> Seq<Seq<(Coordinate, i32)>> {
    rays.map_values(|v: Vec<(Coordinate, i32)>| v@)
}

/// The light map `m` after the light of the rays `rays` has fallen on it,
/// from the `from`-th ray on.
pub open spec fn lit(m: Map<Coordinate, u32>, rays: Seq<Seq<(Coordinate, i32)>>, from: int) -> Map<
    Coordinate,
    u32,
>
    decreases rays.len() - from,
{
    if from < 0 || from >= rays.len() {
        m
    } else {
        lit(lit_by(m, rays[from], 0), rays, from + 1)
    }
}

/// The `k`-th of the lists of cells `floors`; the empty list where there
/// is no `k`-th.
pub open spec fn floor_of(floors: Seq<Seq<Coordinate>>, k: int) -> Seq<Coordinate> {
    if 0 <= k < floors.len() {
        floors[k]
    } else {
        Seq::empty()
    }
}

impl LocationView {
    /// The location at the start of a tick: every living actor has run
    /// the hook of the start of a tick.
    pub open spec fn at_tick_start(self) -> LocationView {
        LocationView { actors: partly(self.actors, self.counter as int, true), ..self }
    }

    /// The location with the attributes in effect of every living actor
    /// computed anew.
    pub open spec fn with_stats(self) -> LocationView {
        LocationView { actors: partly(self.actors, self.counter as int, false), ..self }
    }

    /// The location after the items `pack`, which fall on the cell
    /// `start`, were put down, from the `from`-th on, each on the first
    /// cell of `floor` on which it can be put down.
    pub open spec fn spilled_pack(
        self,
        start: Coordinate,
        pack: Seq<(char, AnyItem)>,
        floor: Seq<Coordinate>,
        from: int,
    ) -> LocationView
        decreases pack.len() - from,
    {
        if from < 0 || from >= pack.len() {
            self
        } else {
            self.with_dropped(start, pack[from].1, floor).spilled_pack(
                start,
                pack,
                floor,
                from + 1,
            )
        }
    }

    /// The location after the items `worn`, which fall on the cell
    /// `start`, were put down, from the slot numbered `from` on, each on
    /// the first cell of `floor` on which it can be put down.
    pub open spec fn spilled_worn(
        self,
        start: Coordinate,
        worn: Map<Slot, (char, AnyItem)>,
        floor: Seq<Coordinate>,
        from: int,
    ) -> LocationView
        decreases 7 - from,
    {
        if from < 0 || from >= 7 {
            self
        } else if worn.contains_key(Slot::numbered(from)) {
            self.with_dropped(start, worn[Slot::numbered(from)].1, floor).spilled_worn(
                start,
                worn,
                floor,
                from + 1,
            )
        } else {
            self.spilled_worn(start, worn, floor, from + 1)
        }
    }

    /// The location after the actor `id` was taken away as dead: what it
    /// carried and wore has fallen where it stood and lies on the floor,
    /// each item on the first cell of `floor` on which it could be put
    /// down, the backpack first; the actor has left the table and is
    /// counted among the dead.
    pub open spec fn buried(self, id: Id, floor: Seq<Coordinate>) -> LocationView {
        let a = self.actors[id];
        let gone = LocationView {
            actors: self.actors.remove(id),
            dead: self.dead.insert(id),
            ..self
        };
        gone.spilled_pack(a.pos.coord, a.items_backpack, floor, 0).spilled_worn(
            a.pos.coord,
            a.items_equipped,
            floor,
            0,
        )
    }

    /// The location after the dead among the actors numbered from `from`
    /// up to, and without, `upto` were taken away, the first of them with
    /// the `k`-th list of `floors`, the next with the one after it, and so
    /// on.
    pub open spec fn swept(
        self,
        floors: Seq<Seq<Coordinate>>,
        from: int,
        upto: int,
        k: int,
    ) -> LocationView
        decreases upto - from,
    {
        if from < 0 || from >= upto {
            self
        } else if self.actors.contains_key(from as Id) && self.actors[from as Id].is_dead() {
            self.buried(from as Id, floor_of(floors, k)).swept(floors, from + 1, upto, k + 1)
        } else {
            self.swept(floors, from + 1, upto, k)
        }
    }

    /// Whether the cell `c` is occupied by an actor of the table that
    /// stands on it.
    pub open spec fn stands(self, c: Coordinate) -> bool {
        &&& self.index.contains_key(c)
        &&& self.actors.contains_key(self.index[c])
        &&& self.actors[self.index[c]].pos.coord == c
    }

    /// The location with only those cells occupied on which an actor of
    /// the table stands.
    pub open spec fn reindexed(self) -> LocationView {
        LocationView {
            index: self.index.restrict(Set::new(|c: Coordinate| self.stands(c))),
            ..self
        }
    }

    /// The sources of light: the cells whose tiles emit light, in the
    /// order in which the cells of the terrain were set, then the cells of
    /// the living actors that emit light, in ascending order of their
    /// numbers; each with the reach of its light.
    pub open spec fn lamps(self) -> Seq<(Coordinate, i32)> {
        self.tile_lamps(self.cells, self.cells.len() as int) + self.actor_lamps(self.counter as int)
    }

    /// The location with the light map made anew from the rays `rays`,
    /// one for each source of light: each cell gets the strongest light
    /// that a ray brings to it, as far as that light can come from the
    /// source of the ray.
    pub open spec fn relit(self, rays: Seq<Seq<(Coordinate, i32)>>) -> LocationView {
        LocationView { light_map: lit(Map::empty(), trimmed_all(self.lamps(), rays), 0), ..self }
    }

    /// Whether the actor `t` hears a noise from the cell `c`: another
    /// living actor stands on `c` and makes a noise that reaches as far
    /// as `t` is away.
    pub open spec fn hears_from(self, t: Id, c: Coordinate) -> bool {
        &&& self.stands(c)
        &&& self.index[c] != t
        &&& !self.actors[self.index[c]].is_dead()
        &&& self.actors[self.index[c]].noise_emision > 0
        &&& c.steps_to(self.actors[t].pos.coord) <= self.actors[self.index[c]].noise_emision
    }

    /// What the actor `t` has heard once the noises of this tick have
    /// spread, counting only the noises of the actors numbered below
    /// `upto`.
    pub open spec fn heard_by(self, t: Id, upto: int) -> Map<Coordinate, Noise> {
        Map::new(
            |c: Coordinate|
                self.actors[t].heared.contains_key(c) || (self.hears_from(t, c) && self.index[c]
                    < upto),
            |c: Coordinate|
                if self.hears_from(t, c) && self.index[c] < upto {
                    Noise::Creature(self.actors[self.index[c]].race)
                } else {
                    self.actors[t].heared[c]
                },
        )
    }

    /// The table after the noises of the actors numbered below `upto` have
    /// spread, and the noise of the actor numbered `upto` to the actors
    /// numbered below `done`.
    pub open spec fn noised(self, upto: int, done: int) -> Map<Id, ActorView> {
        Map::new(
            |t: Id| self.actors.contains_key(t),
            |t: Id|
                if self.actors[t].is_dead() {
                    self.actors[t]
                } else {
                    ActorView {
                        heared: self.heard_by(
                            t,
                            if t < done {
                                upto + 1
                            } else {
                                upto
                            },
                        ),
                        ..self.actors[t]
                    }
                },
        )
    }

    /// The location after the noises of this tick have spread: every
    /// living actor has heard every other living actor whose noise
    /// reaches it, from the cell where that one stands.
    pub open spec fn with_noises(self) -> LocationView {
        LocationView { actors: self.noised(self.counter as int, 0), ..self }
    }

    /// The numbers of the actors of the table below `upto`, in ascending
    /// order; only those of the living where `alive` holds.
    pub open spec fn ids_upto(self, upto: int, alive: bool) -> Seq<Id>
        decreases upto,
    {
        if upto <= 0 {
            Seq::empty()
        } else {
            let rest = self.ids_upto(upto - 1, alive);
            let id = (upto - 1) as Id;
            if self.actors.contains_key(id) && !(alive && self.actors[id].is_dead()) {
                rest.push(id)
            } else {
                rest
            }
        }
    }

    /// The dead among the actors of the table numbered below `upto`, in
    /// ascending order, each with the cell on which it lies.
    pub open spec fn fallen_upto(self, upto: int) -> Seq<(Id, Coordinate)>
        decreases upto,
    {
        if upto <= 0 {
            Seq::empty()
        } else {
            let rest = self.fallen_upto(upto - 1);
            let id = (upto - 1) as Id;
            if self.actors.contains_key(id) && self.actors[id].is_dead() {
                rest.push((id, self.actors[id].pos.coord))
            } else {
                rest
            }
        }
    }

    /// The light sources among the first `upto` of the cells `cells`: each
    /// cell whose tile emits light, with the reach of that light.
    pub open spec fn tile_lamps(self, cells: Seq<Coordinate>, upto: int) -> Seq<(Coordinate, i32)>
        decreases upto,
    {
        if upto <= 0 || upto > cells.len() {
            Seq::empty()
        } else {
            let rest = self.tile_lamps(cells, upto - 1);
            let c = cells[upto - 1];
            if self.tile(c).light > 0 {
                rest.push((c, self.tile(c).light))
            } else {
                rest
            }
        }
    }

    /// The light sources among the actors numbered below `upto`: the cell
    /// of each living actor that emits light, with the reach of that
    /// light.
    pub open spec fn actor_lamps(self, upto: int) -> Seq<(Coordinate, i32)>
        decreases upto,
    {
        if upto <= 0 {
            Seq::empty()
        } else {
            let rest = self.actor_lamps(upto - 1);
            let id = (upto - 1) as Id;
            if self.actors.contains_key(id) && !self.actors[id].is_dead()
                && self.actors[id].light_emision > 0 {
                rest.push(
                    (
                        self.actors[id].pos.coord,
                        if self.actors[id].light_emision > i32::MAX {
                            i32::MAX
                        } else {
                            self.actors[id].light_emision as i32
                        },
                    ),
                )
            } else {
                rest
            }
        }
    }

    /// The location with the actor `a` new in the table, under the number
    /// of the counter: the actor has its attributes in effect, and has
    /// started and ended a turn of its own, with `sight` its line of
    /// sight.
    pub open spec fn with_spawned(self, a: ActorView, sight: Set<Coordinate>) -> LocationView {
        LocationView {
            actors: self.actors.insert(
                self.counter,
                a.with_derived_stats().at_turn_start().at_turn_end(self.light_map, self.map, sight),
            ),
            index: self.index.insert(a.pos.coord, self.counter),
            counter: (self.counter + 1) as u32,
            ..self
        }
    }

    /// The location without the actor `id`, and without the occupation of
    /// the cell that it stands on.
    pub open spec fn without(self, id: Id) -> LocationView {
        if self.actors.contains_key(id) {
            LocationView {
                actors: self.actors.remove(id),
                index: self.index.remove(self.actors[id].pos.coord),
                ..self
            }
        } else {
            self
        }
    }

    /// The location after the end of a tick: the attributes in effect are
    /// computed anew, the dead are taken away, only the living keep their
    /// cells occupied, and light and noise have spread.
    pub open spec fn at_tick_end(
        self,
        floors: Seq<Seq<Coordinate>>,
        rays: Seq<Seq<(Coordinate, i32)>>,
    ) -> LocationView {
        self.with_stats().swept(floors, 0, self.counter as int, 0).reindexed().relit(
            rays,
        ).with_noises()
    }
}

/// Running a hook on the actors of a table moves none of them, kills none
/// and revives none.
pub proof fn lemma_hooked(a: ActorView, start: bool)
    ensures
        hooked(a, start).pos == a.pos,
        hooked(a, start).hp == a.hp,
        hooked(a, start).is_dead() == a.is_dead(),
        hooked(a, start).known == a.known,
        hooked(a, start).race == a.race,
        hooked(a, start).items_backpack == a.items_backpack,
        hooked(a, start).items_equipped == a.items_equipped,
        hooked(a, start).light_emision == a.light_emision,
        !start ==> hooked(a, start).noise_emision == a.noise_emision && hooked(a, start).heared
            == a.heared,
{
}

/// Lets the light of the ray `ray` fall on the light map `light`.
fn shine(light: &mut CoordMap<u32>, ray: &Vec<(Coordinate, i32)>)
    ensures
        final(light)@ == lit_by(old(light)@, ray@, 0),
{
    let mut i: usize = 0;
    while i < ray.len()
        invariant
            i <= ray.len(),
            lit_by(old(light)@, ray@, 0) == lit_by(light@, ray@, i as int),
        decreases ray.len() - i,
    {
        let (c, l) = ray[i];
        let now: u32 = match light.get(c) {
            Some(v) => *v,
            None => 0,
        };
        if l > 0 && l as u32 > now {
            light.insert(c, l as u32);
        }
        i += 1;
    }
}

/// The ray `ray` of the source `lamp`, without what cannot come from the
/// source.
fn trim(lamp: (Coordinate, i32), ray: &Vec<(Coordinate, i32)>) -> (kept: Vec<(Coordinate, i32)>)
    ensures
        kept@ == trimmed(lamp, ray@),
{
    let mut kept: Vec<(Coordinate, i32)> = Vec::new();
    let ghost keep = |e: (Coordinate, i32)| fits(lamp, e.0, e.1 as int);
    if !lamp.0.is_in_world() {
        proof {
            assert forall|i: int| 0 <= i < ray@.len() implies !keep(#[trigger] ray@[i]) by {}
            lemma_filter_nothing(ray@, lamp);
        }
        return kept;
    }
    let mut i: usize = 0;
    proof {
        crate::hex::lemma_world_within_reach(lamp.0, Direction::YZ, Direction::YZ);
        reveal(Seq::filter);
        assert(ray@.take(0) =~= Seq::<(Coordinate, i32)>::empty());
    }
    while i < ray.len()
        invariant
            i <= ray.len(),
            lamp.0.in_world(),
            lamp.0.in_reach(),
            kept@ == trimmed(lamp, ray@.take(i as int)),
        decreases ray.len() - i,
    {
        let (c, l) = ray[i];
        let mut good = false;
        if c.is_in_world() && l >= 1 {
            proof {
                crate::hex::lemma_world_within_reach(c, Direction::YZ, Direction::YZ);
                crate::hex::lemma_steps(lamp.0, c, Direction::YZ);
            }
            let d = lamp.0.distance(c);
            good = d <= lamp.1 && l <= lamp.1 - d;
        }
        proof {
            reveal(Seq::filter);
            assert(ray@.take(i as int + 1).drop_last() =~= ray@.take(i as int));
            assert(good == fits(lamp, c, l as int));
        }
        if good {
            kept.push((c, l));
        }
        i += 1;
    }
    proof {
        assert(ray@.take(i as int) =~= ray@);
    }
    kept
}

/// Nothing is left of a ray whose source lies outside the world.
proof fn lemma_filter_nothing(ray: Seq<(Coordinate, i32)>, lamp: (Coordinate, i32))
    requires
        !lamp.0.in_world(),
    ensures
        trimmed(lamp, ray) == Seq::<(Coordinate, i32)>::empty(),
    decreases ray.len(),
{
    reveal(Seq::filter);
    if ray.len() > 0 {
        lemma_filter_nothing(ray.drop_last(), lamp);
    }
}

impl Location {
    /// Runs the hook of the start of a tick, where `start` holds, or of
    /// its end, where it does not, on every living actor.
    fn refresh(&mut self, start: bool)
        requires
            old(self)@.wf(),
        ensures
            final(self)@ == (LocationView {
                actors: partly(old(self)@.actors, old(self)@.counter as int, start),
                ..old(self)@
            }),
    {
        let mut id: u32 = 0;
        let n = self.actors_counter;
        proof {
            assert(self@.actors =~= partly(old(self)@.actors, 0, start));
        }
        while id < n
            invariant
                id <= n,
                n == old(self)@.counter,
                self@ == (LocationView {
                    actors: partly(old(self)@.actors, id as int, start),
                    ..old(self)@
                }),
            decreases n - id,
        {
            self.refresh_one(id, start);
            proof {
                let m = old(self)@.actors;
                assert(self@.actors =~= partly(m, id as int + 1, start));
            }
            id += 1;
        }
    }

    /// Runs the hook on the actor `id`, if it is in the table and alive.
    fn refresh_one(&mut self, id: Id, start: bool)
        ensures
            final(self)@ == (LocationView {
                actors: if old(self)@.actors.contains_key(id) {
                    old(self)@.actors.insert(id, hooked(old(self)@.actors[id], start))
                } else {
                    old(self)@.actors
                },
                ..old(self)@
            }),
    {
        let ghost table = self.actors_byid@;
        proof {
            lemma_views(table, id, table[id]);
        }
        match self.actors_byid.remove(&id) {
            Some(actor) => {
                let mut actor = actor;
                if !actor.is_dead() {
                    if start {
                        actor.pre_any_tick();
                    } else {
                        actor.post_any_tick();
                    }
                }
                self.actors_byid.insert(id, actor);
                proof {
                    assert(table.remove(id).insert(id, actor) =~= table.insert(id, actor));
                    lemma_views(table, id, actor);
                }
            },
            None => {
                proof {
                    assert(self.actors_byid@ =~= table);
                }
            },
        }
    }

    /// Puts the items of the backpack `pack` down, each on the first cell
    /// of `floor` that is free for it.
    fn spill_pack(&mut self, start: Coordinate, pack: &LetterMap<AnyItem>, floor: &Vec<Coordinate>)
        ensures
            final(self)@ == old(self)@.spilled_pack(start, pack.entries(), floor@, 0),
    {
        let n = pack.len();
        let mut i: usize = 0;
        while i < n
            invariant
                i <= n,
                n == pack.entries().len(),
                old(self)@.spilled_pack(start, pack.entries(), floor@, 0) == self@.spilled_pack(
                    start,
                    pack.entries(),
                    floor@,
                    i as int,
                ),
            decreases n - i,
        {
            let item = *pack.value_at(i);
            self.drop_item(start, item, floor);
            i += 1;
        }
    }

    /// Puts the items of the equipment `worn` down, each on the first cell
    /// of `floor` that is free for it.
    fn spill_worn(&mut self, start: Coordinate, worn: &Equipment, floor: &Vec<Coordinate>)
        ensures
            final(self)@ == old(self)@.spilled_worn(start, worn@, floor@, 0),
    {
        let mut n: usize = 0;
        while n < 7
            invariant
                n <= 7,
                old(self)@.spilled_worn(start, worn@, floor@, 0) == self@.spilled_worn(
                    start,
                    worn@,
                    floor@,
                    n as int,
                ),
            decreases 7 - n,
        {
            match worn.get(Slot::from_index(n)) {
                Some((_, item)) => {
                    self.drop_item(start, item, floor);
                },
                None => {},
            }
            n += 1;
        }
    }

    /// Takes the actor `id` away as dead.
    fn bury(&mut self, id: Id, floor: &Vec<Coordinate>)
        requires
            old(self)@.actors.contains_key(id),
        ensures
            final(self)@ == old(self)@.buried(id, floor@),
    {
        let actor = self.take_out(id);
        self.actors_dead.insert(id);
        self.spill_pack(actor.pos.coord, &actor.items_backpack, floor);
        self.spill_worn(actor.pos.coord, &actor.items_equipped, floor);
    }

    /// Whether the actor `id` is in the table and dead.
    fn has_fallen(&self, id: Id) -> (b: bool)
        ensures
            b == (self@.actors.contains_key(id) && self@.actors[id].is_dead()),
    {
        proof {
            lemma_views(self.actors_byid@, id, self.actors_byid@[id]);
        }
        match self.actors_byid.get(&id) {
            Some(a) => a.is_dead(),
            None => false,
        }
    }

    /// Takes the dead among the actors away, the first of them with the
    /// first list of `floors`, the next with the one after it, and so on.
    fn sweep(&mut self, floors: &Vec<Vec<Coordinate>>)
        ensures
            final(self)@ == old(self)@.swept(
                crate::act::lines(floors@),
                0,
                old(self)@.counter as int,
                0,
            ),
    {
        let n = self.actors_counter;
        let ghost all = crate::act::lines(floors@);
        let nothing: Vec<Coordinate> = Vec::new();
        let mut id: u32 = 0;
        let mut k: usize = 0;
        while id < n
            invariant
                id <= n,
                k <= id,
                n == old(self)@.counter,
                all == crate::act::lines(floors@),
                nothing@ == Seq::<Coordinate>::empty(),
                old(self)@.swept(all, 0, n as int, 0) == self@.swept(
                    all,
                    id as int,
                    n as int,
                    k as int,
                ),
            decreases n - id,
        {
            if self.has_fallen(id) {
                let floor = if k < floors.len() {
                    &floors[k]
                } else {
                    &nothing
                };
                assert(floor@ == floor_of(all, k as int));
                self.bury(id, floor);
                k += 1;
            }
            id += 1;
        }
    }

    /// Leaves only those cells occupied on which an actor of the table
    /// stands.
    fn reindex(&mut self)
        requires
            old(self)@.wf(),
        ensures
            final(self)@ == old(self)@.reindexed(),
    {
        let n = self.actors_counter;
        let mut fresh: CoordMap<Id> = CoordMap::new();
        let mut id: u32 = 0;
        let ghost loc = self@;
        proof {
            assert(fresh@ =~= loc.index.restrict(
                Set::new(|c: Coordinate| loc.stands(c) && loc.index[c] < 0),
            ));
        }
        while id < n
            invariant
                id <= n,
                n == loc.counter,
                loc == self@,
                loc.wf(),
                fresh@ == loc.index.restrict(
                    Set::new(|c: Coordinate| loc.stands(c) && loc.index[c] < id),
                ),
            decreases n - id,
        {
            proof {
                lemma_views(self.actors_byid@, id, self.actors_byid@[id]);
            }
            let ghost before = fresh@;
            match self.actors_byid.get(&id) {
                Some(a) => {
                    fresh.insert(a.pos.coord, id);
                },
                None => {},
            }
            proof {
                let want = loc.index.restrict(
                    Set::new(|c: Coordinate| loc.stands(c) && loc.index[c] < id + 1),
                );
                assert forall|c: Coordinate| #[trigger]
                    fresh@.contains_key(c) == want.contains_key(c) by {
                    if loc.actors.contains_key(id) {
                        assert(loc.index[loc.actors[id].pos.coord] == id);
                    }
                }
                assert forall|c: Coordinate| fresh@.contains_key(c) implies fresh@[c] == want[c] by {
                    if loc.actors.contains_key(id) {
                        assert(loc.index[loc.actors[id].pos.coord] == id);
                    }
                }
                assert(fresh@ =~= want);
            }
            id += 1;
        }
        proof {
            let want = loc.reindexed().index;
            assert forall|c: Coordinate| #[trigger]
                fresh@.contains_key(c) == want.contains_key(c) by {
                if loc.stands(c) {
                    assert(loc.actors.contains_key(loc.index[c]));
                }
            }
            assert(fresh@ =~= want);
        }
        self.actors_coord_to_id = fresh;
    }

    /// Makes the light map anew from the rays `rays`: each cell gets the
    /// strongest light that a ray brings to it.  The rays are meant to be
    /// those of the sources that `light_sources` lists, in their order,
    /// each with the cells that its light reaches and the strength that
    /// is left there; of a ray only that counts which can come from its
    /// source.
    pub fn recalculate_light_map(&mut self, rays: &Vec<Vec<(Coordinate, i32)>>)
        ensures
            final(self)@ == old(self)@.relit(beams(rays@)),
    {
        let lamps = self.light_sources();
        let mut light: CoordMap<u32> = CoordMap::new();
        let ghost all = trimmed_all(lamps@, beams(rays@));
        let n = if lamps.len() <= rays.len() {
            lamps.len()
        } else {
            rays.len()
        };
        let mut i: usize = 0;
        while i < n
            invariant
                i <= n,
                n == all.len(),
                n <= lamps@.len(),
                n <= rays@.len(),
                all == trimmed_all(lamps@, beams(rays@)),
                lit(Map::empty(), all, 0) == lit(light@, all, i as int),
            decreases n - i,
        {
            let kept = trim(lamps[i], &rays[i]);
            proof {
                assert(all[i as int] == kept@);
            }
            shine(&mut light, &kept);
            i += 1;
        }
        self.light_map = light;
    }

    /// Lets the actor `t` hear the noise that the living actor `s`, of the
    /// race `race` and on the cell `from`, makes with the radius
    /// `noise`, where `t` is a living actor other than `s` and within
    /// that radius.
    fn carry_noise(&mut self, t: Id, s: Id, from: Coordinate, noise: i32, race: crate::stats::Race)
        requires
            from.in_world(),
            old(self)@.wf(),
        ensures
            final(self)@ == (LocationView {
                actors: if t != s && old(self)@.actors.contains_key(t) && !old(
                    self,
                )@.actors[t].is_dead() && from.steps_to(old(self)@.actors[t].pos.coord) <= noise {
                    old(self)@.actors.insert(
                        t,
                        ActorView {
                            heared: old(self)@.actors[t].heared.insert(from, Noise::Creature(race)),
                            ..old(self)@.actors[t]
                        },
                    )
                } else {
                    old(self)@.actors
                },
                ..old(self)@
            }),
    {
        if t == s {
            return ;
        }
        let ghost table = self.actors_byid@;
        proof {
            lemma_views(table, t, table[t]);
        }
        match self.actors_byid.remove(&t) {
            Some(actor) => {
                let mut actor = actor;
                proof {
                    assert(old(self)@.actors.contains_key(t));
                    lemma_world_within_reach(from, Direction::YZ, Direction::YZ);
                    lemma_world_within_reach(actor.pos.coord, Direction::YZ, Direction::YZ);
                }
                let ghost was = actor;
                let reaches = !actor.is_dead() && from.distance(actor.pos.coord) <= noise;
                if reaches {
                    actor.noise_hears(from, Noise::Creature(race));
                }
                self.actors_byid.insert(t, actor);
                proof {
                    assert(table.remove(t).insert(t, actor) =~= table.insert(t, actor));
                    lemma_views(table, t, actor);
                    assert(old(self)@.actors[t] == was@);
                    if !reaches {
                        assert(self@.actors =~= old(self)@.actors);
                    }
                }
            },
            None => {
                proof {
                    assert(self.actors_byid@ =~= table);
                }
            },
        }
    }

    /// The cell, the radius of the noise and the race of the actor `s`, if
    /// it is in the table, alive and makes a noise.
    fn noise_source(&self, s: Id) -> (r: Option<(Coordinate, i32, crate::stats::Race)>)
        ensures
            r == if self@.actors.contains_key(s) && !self@.actors[s].is_dead()
                && self@.actors[s].noise_emision > 0 {
                Some(
                    (
                        self@.actors[s].pos.coord,
                        self@.actors[s].noise_emision,
                        self@.actors[s].race,
                    ),
                )
            } else {
                None
            },
    {
        proof {
            lemma_views(self.actors_byid@, s, self.actors_byid@[s]);
        }
        match self.actors_byid.get(&s) {
            Some(a) => {
                if !a.is_dead() && a.noise_emision > 0 {
                    Some((a.pos.coord, a.noise_emision, a.race))
                } else {
                    None
                }
            },
            None => None,
        }
    }

    /// Lets the noise of the actor `s` spread to every other living actor
    /// within its radius.
    fn spread_noise(&mut self, s: Id, Ghost(start): Ghost<LocationView>)
        requires
            start.wf(),
            s < start.counter,
            old(self)@ == (LocationView { actors: start.noised(s as int, 0), ..start }),
        ensures
            final(self)@ == (LocationView { actors: start.noised(s as int + 1, 0), ..start }),
    {
        let n = self.actors_counter;
        proof {
            lemma_noised(start, s as int, 0);
        }
        let source = self.noise_source(s);
        let mut t: u32 = 0;
        while t < n
            invariant
                t <= n,
                n == start.counter,
                start.wf(),
                s < start.counter,
                source == if start.actors.contains_key(s) && !start.actors[s].is_dead()
                    && start.actors[s].noise_emision > 0 {
                    Some(
                        (
                            start.actors[s].pos.coord,
                            start.actors[s].noise_emision,
                            start.actors[s].race,
                        ),
                    )
                } else {
                    None
                },
                self@ == (LocationView { actors: start.noised(s as int, t as int), ..start }),
            decreases n - t,
        {
            proof {
                lemma_noised(start, s as int, t as int);
                lemma_noised(start, s as int, t as int + 1);
            }
            match source {
                Some((from, noise, race)) => {
                    self.carry_noise(t, s, from, noise, race);
                    proof {
                        lemma_noise_step(start, s, t);
                        assert(self@.actors =~= start.noised(s as int, t as int + 1));
                    }
                },
                None => {
                    proof {
                        lemma_noise_step(start, s, t);
                        assert(self@.actors =~= start.noised(s as int, t as int + 1));
                    }
                },
            }
            t += 1;
        }
        proof {
            assert(start.noised(s as int, n as int) =~= start.noised(s as int + 1, 0));
        }
    }

    /// Lets the noises of this tick spread: every living actor hears
    /// every other living actor whose noise reaches it, from the cell
    /// where that one stands.
    pub fn recalculate_noise(&mut self)
        requires
            old(self)@.wf(),
        ensures
            final(self)@ == old(self)@.with_noises(),
    {
        let n = self.actors_counter;
        let ghost start = self@;
        let mut s: u32 = 0;
        proof {
            lemma_noise_none(start);
        }
        while s < n
            invariant
                s <= n,
                n == start.counter,
                start.wf(),
                start == old(self)@,
                self@ == (LocationView { actors: start.noised(s as int, 0), ..start }),
            decreases n - s,
        {
            self.spread_noise(s, Ghost(start));
            s += 1;
        }
    }

    /// The hook at the end of every tick: the attributes in effect of
    /// every living actor are computed anew, the dead are taken away with
    /// what they carried spilled on the floor, only the living keep their
    /// cells occupied, and light and noise spread.  `floors` holds, for
    /// each of the dead that `fallen` lists, the cells that can be walked
    /// to from where it lies, the nearest first; `rays` holds, for each
    /// source that `light_sources` lists, the cells that its light
    /// reaches, with the strength that is left there.
    pub fn post_any_tick(
        &mut self,
        floors: &Vec<Vec<Coordinate>>,
        rays: &Vec<Vec<(Coordinate, i32)>>,
    )
        requires
            old(self)@.wf(),
        ensures
            final(self)@ == old(self)@.at_tick_end(crate::act::lines(floors@), beams(rays@)),
            final(self)@.wf(),
            final(self)@.settled(),
    {
        proof {
            lemma_tick_end_wf(old(self)@, crate::act::lines(floors@), beams(rays@));
            lemma_refreshed_wf(old(self)@, false);
        }
        self.refresh(false);
        proof {
            lemma_swept(self@, crate::act::lines(floors@), 0, 0);
        }
        self.sweep(floors);
        proof {
            lemma_reindexed(self@);
        }
        self.reindex();
        self.recalculate_light_map(rays);
        self.recalculate_noise();
    }

    /// The numbers of the actors of the table, in ascending order.
    pub fn actors_ids(&self) -> (v: Vec<Id>)
        ensures
            v@ == self@.ids_upto(self@.counter as int, false),
            forall|id: Id| v@.contains(id) <==> id < self@.counter && self@.actors.contains_key(id),
    {
        self.ids(false)
    }

    /// The numbers of the living actors of the table, in ascending order.
    pub fn actors_alive_ids(&self) -> (v: Vec<Id>)
        ensures
            v@ == self@.ids_upto(self@.counter as int, true),
            forall|id: Id|
                v@.contains(id) <==> id < self@.counter && self@.actors.contains_key(id)
                    && !self@.actors[id].is_dead(),
    {
        self.ids(true)
    }

    fn ids(&self, alive: bool) -> (v: Vec<Id>)
        ensures
            v@ == self@.ids_upto(self@.counter as int, alive),
            forall|id: Id|
                v@.contains(id) <==> id < self@.counter && self@.actors.contains_key(id) && !(
                alive && self@.actors[id].is_dead()),
    {
        let mut v: Vec<Id> = Vec::new();
        let n = self.actors_counter;
        let mut id: u32 = 0;
        while id < n
            invariant
                id <= n,
                n == self@.counter,
                v@ == self@.ids_upto(id as int, alive),
                forall|i: Id|
                    v@.contains(i) <==> i < id && self@.actors.contains_key(i) && !(alive
                        && self@.actors[i].is_dead()),
            decreases n - id,
        {
            proof {
                lemma_views(self.actors_byid@, id, self.actors_byid@[id]);
            }
            let ghost before = v@;
            let listed = match self.actors_byid.get(&id) {
                Some(a) => !(alive && a.is_dead()),
                None => false,
            };
            if listed {
                v.push(id);
                proof {
                    assert(v@[v@.len() - 1] == id);
                    assert forall|i: Id| before.contains(i) implies v@.contains(i) by {
                        let j = choose|j: int| 0 <= j < before.len() && before[j] == i;
                        assert(v@[j] == i);
                    }
                    assert forall|i: Id| v@.contains(i) implies before.contains(i) || i == id by {
                        let j = choose|j: int| 0 <= j < v@.len() && v@[j] == i;
                        if j < before.len() {
                            assert(before[j] == i);
                        }
                    }
                }
            }
            proof {
                assert(listed == (self@.actors.contains_key(id) && !(alive
                    && self@.actors[id].is_dead())));
                assert forall|i: Id|
                    v@.contains(i) <==> i < id + 1 && self@.actors.contains_key(i) && !(alive
                        && self@.actors[i].is_dead()) by {
                    if listed {
                        assert(v@.contains(i) <==> before.contains(i) || i == id);
                    } else {
                        assert(v@ == before);
                    }
                }
            }
            id += 1;
        }
        v
    }

    /// The dead among the actors of the table, in ascending order of
    /// their numbers, each with the cell on which it lies.
    pub fn fallen(&self) -> (v: Vec<(Id, Coordinate)>)
        ensures
            v@ == self@.fallen_upto(self@.counter as int),
    {
        let mut v: Vec<(Id, Coordinate)> = Vec::new();
        let n = self.actors_counter;
        let mut id: u32 = 0;
        while id < n
            invariant
                id <= n,
                n == self@.counter,
                v@ == self@.fallen_upto(id as int),
            decreases n - id,
        {
            proof {
                lemma_views(self.actors_byid@, id, self.actors_byid@[id]);
            }
            match self.actors_byid.get(&id) {
                Some(a) => {
                    if a.is_dead() {
                        v.push((id, a.pos.coord));
                    }
                },
                None => {},
            }
            id += 1;
        }
        v
    }

    /// The sources of light: the cells whose tiles emit light, in the
    /// order in which the cells of the map were set, then the cells of the
    /// living actors that emit light, in ascending order of their numbers;
    /// each with the reach of its light.
    pub fn light_sources(&self) -> (v: Vec<(Coordinate, i32)>)
        ensures
            v@ == self@.lamps(),
    {
        let mut v: Vec<(Coordinate, i32)> = Vec::new();
        let cells = self.map.len();
        let mut i: usize = 0;
        while i < cells
            invariant
                i <= cells,
                cells == self.map.cells().len(),
                v@ == self@.tile_lamps(self@.cells, i as int),
            decreases cells - i,
        {
            let c = self.map.cell_at(i);
            let t = self.map.tile(c);
            if t.light > 0 {
                v.push((c, t.light));
            }
            i += 1;
        }
        let ghost lamps = v@;
        let n = self.actors_counter;
        let mut id: u32 = 0;
        proof {
            assert(v@ =~= lamps + self@.actor_lamps(0));
        }
        while id < n
            invariant
                id <= n,
                n == self@.counter,
                v@ == lamps + self@.actor_lamps(id as int),
            decreases n - id,
        {
            proof {
                lemma_views(self.actors_byid@, id, self.actors_byid@[id]);
            }
            let ghost before = v@;
            match self.actors_byid.get(&id) {
                Some(a) => {
                    if !a.is_dead() && a.light_emision > 0 {
                        let reach: i32 = if a.light_emision > 0x7fff_ffff {
                            i32::MAX
                        } else {
                            a.light_emision as i32
                        };
                        v.push((a.pos.coord, reach));
                        proof {
                            assert(v@ =~= lamps + self@.actor_lamps(id as int + 1));
                        }
                    }
                },
                None => {},
            }
            id += 1;
        }
        v
    }

    /// Puts the new actor `actor` into the table, and returns the number
    /// that it got.  `sight` is the line of sight from where it stands.
    pub fn spawn(&mut self, actor: Actor, sight: &Vec<Coordinate>) -> (id: Id)
        requires
            old(self)@.wf(),
            actor@.pos.coord.in_world(),
            !old(self)@.occupied(actor@.pos.coord),
            old(self)@.counter < u32::MAX,
        ensures
            id == old(self)@.counter,
            final(self)@ == old(self)@.with_spawned(actor@, crate::actor::cells(sight@)),
            final(self)@.wf(),
    {
        let id = self.actors_counter;
        let ghost fresh = actor@;
        let mut actor = actor;
        actor.recalculate_stats();
        actor.pre_own_tick();
        actor.post_own_tick(self, sight);
        self.actors_counter = self.actors_counter + 1;
        self.actors_coord_to_id.insert(actor.pos.coord, id);
        self.put_back(id, actor);
        proof {
            lemma_spawned_wf(old(self)@, fresh, crate::actor::cells(sight@));
        }
        id
    }

    /// Puts the actor `actor`, which the player controls, into the table.
    pub fn spawn_player(&mut self, actor: Actor, sight: &Vec<Coordinate>) -> (id: Id)
        requires
            old(self)@.wf(),
            actor@.player,
            actor@.pos.coord.in_world(),
            !old(self)@.occupied(actor@.pos.coord),
            old(self)@.counter < u32::MAX,
        ensures
            id == old(self)@.counter,
            final(self)@ == (LocationView {
                player_id: Some(id),
                ..old(self)@.with_spawned(actor@, crate::actor::cells(sight@))
            }),
            final(self)@.wf(),
    {
        let id = self.spawn(actor, sight);
        self.player_id = Some(id);
        id
    }

    /// Takes the actor `id` out of the table, and frees the cell that it
    /// stands on.
    pub fn remove(&mut self, id: Id) -> (r: Option<Actor>)
        requires
            old(self)@.wf(),
        ensures
            final(self)@ == old(self)@.without(id),
            final(self)@.wf(),
            match r {
                Some(a) => old(self)@.actors.contains_key(id) && a@ == old(self)@.actors[id],
                None => !old(self)@.actors.contains_key(id),
            },
    {
        let ghost table = self.actors_byid@;
        proof {
            lemma_views(table, id, table[id]);
        }
        match self.actors_byid.remove(&id) {
            Some(actor) => {
                self.actors_coord_to_id.remove(actor.pos.coord);
                proof {
                    let after = self@;
                    assert forall|i: Id| #[trigger] after.actors.contains_key(i) implies {
                        &&& i < after.counter
                        &&& after.actors[i].pos.coord.in_world()
                        &&& after.index.contains_key(after.actors[i].pos.coord)
                        &&& after.index[after.actors[i].pos.coord] == i
                    } by {
                        assert(old(self)@.actors.contains_key(i));
                        assert(old(self)@.actors.contains_key(id));
                    }
                }
                Some(actor)
            },
            None => {
                proof {
                    assert(self.actors_byid@ =~= table);
                }
                None
            },
        }
    }

    /// The hook at the start of every tick: every living actor remembers
    /// where it stands and forgets what it recorded in the last tick.
    pub fn pre_any_tick(&mut self)
        requires
            old(self)@.wf(),
        ensures
            final(self)@ == old(self)@.at_tick_start(),
            final(self)@.wf(),
    {
        self.refresh(true);
        proof {
            lemma_refreshed_wf(old(self)@, true);
        }
    }

    /// Counts the tick that has ended.
    pub fn post_turn(&mut self)
        ensures
            final(self)@ == (LocationView {
                turn: if old(self)@.turn < u64::MAX {
                    (old(self)@.turn + 1) as u64
                } else {
                    old(self)@.turn
                },
                ..old(self)@
            }),
    {
        if self.turn < u64::MAX {
            self.turn = self.turn + 1;
        }
    }
}

/// What the table is after the noises have spread part of the way: the
/// actors of the table as they were, but for what they have heard.
pub proof fn lemma_noised(loc: LocationView, upto: int, done: int)
    ensures
        loc.noised(upto, done).dom() == loc.actors.dom(),
        forall|t: Id| #[trigger]
            loc.actors.contains_key(t) ==> {
                &&& loc.noised(upto, done)[t].pos == loc.actors[t].pos
                &&& loc.noised(upto, done)[t].hp == loc.actors[t].hp
                &&& loc.noised(upto, done)[t].is_dead() == loc.actors[t].is_dead()
                &&& loc.noised(upto, done)[t].noise_emision == loc.actors[t].noise_emision
                &&& loc.noised(upto, done)[t].race == loc.actors[t].race
                &&& loc.noised(upto, done)[t].known == loc.actors[t].known
            },
{
    assert(loc.noised(upto, done).dom() =~= loc.actors.dom());
}

/// Before any noise has spread, the actors have heard what they had
/// heard.
pub proof fn lemma_noise_none(loc: LocationView)
    ensures
        loc.noised(0, 0) == loc.actors,
{
    assert forall|t: Id| loc.actors.contains_key(t) implies #[trigger] loc.noised(0, 0)[t]
        == loc.actors[t] by {
        assert(loc.heard_by(t, 0) =~= loc.actors[t].heared);
    }
    assert(loc.noised(0, 0) =~= loc.actors);
}

/// One step of the spreading: when the noise of the actor `s` has reached
/// the actors numbered below `t`, carrying it to the actor `t` makes it
/// reach those numbered below `t + 1`.
pub proof fn lemma_noise_step(loc: LocationView, s: Id, t: Id)
    requires
        loc.wf(),
    ensures
        ({
            let now = loc.noised(s as int, t as int);
            let a = loc.actors[s];
            let sounds = loc.actors.contains_key(s) && !a.is_dead() && a.noise_emision > 0;
            let reaches = sounds && t != s && loc.actors.contains_key(t)
                && !loc.actors[t].is_dead() && a.pos.coord.steps_to(loc.actors[t].pos.coord)
                <= a.noise_emision;
            loc.noised(s as int, t as int + 1) == if reaches {
                now.insert(
                    t,
                    ActorView {
                        heared: now[t].heared.insert(a.pos.coord, Noise::Creature(a.race)),
                        ..now[t]
                    },
                )
            } else {
                now
            }
        }),
{
    let now = loc.noised(s as int, t as int);
    let next = loc.noised(s as int, t as int + 1);
    let a = loc.actors[s];
    let sounds = loc.actors.contains_key(s) && !a.is_dead() && a.noise_emision > 0;
    let reaches = sounds && t != s && loc.actors.contains_key(t) && !loc.actors[t].is_dead()
        && a.pos.coord.steps_to(loc.actors[t].pos.coord) <= a.noise_emision;
    if loc.actors.contains_key(s) {
        assert(loc.index[a.pos.coord] == s);
    }
    if loc.actors.contains_key(t) && !loc.actors[t].is_dead() {
        let before = loc.heard_by(t, s as int);
        let after = loc.heard_by(t, s as int + 1);
        if reaches {
            assert(loc.hears_from(t, a.pos.coord));
            assert(after =~= before.insert(a.pos.coord, Noise::Creature(a.race)));
        } else {
            assert forall|c: Coordinate| loc.hears_from(t, c) implies loc.index[c] != s by {}
            assert(after =~= before);
        }
    }
    if reaches {
        assert(next =~= now.insert(
            t,
            ActorView {
                heared: now[t].heared.insert(a.pos.coord, Noise::Creature(a.race)),
                ..now[t]
            },
        ));
    } else {
        assert(next =~= now);
    }
}

/// Putting the items of a backpack down changes the floor and nothing
/// else.
pub proof fn lemma_spill_pack_frame(
    loc: LocationView,
    start: Coordinate,
    pack: Seq<(char, AnyItem)>,
    floor: Seq<Coordinate>,
    from: int,
)
    ensures
        loc.spilled_pack(start, pack, floor, from) == (LocationView {
            items: loc.spilled_pack(start, pack, floor, from).items,
            ..loc
        }),
    decreases pack.len() - from,
{
    if 0 <= from < pack.len() {
        lemma_spill_pack_frame(
            loc.with_dropped(start, pack[from].1, floor),
            start,
            pack,
            floor,
            from + 1,
        );
    }
}

/// Putting the items of an equipment down changes the floor and nothing
/// else.
pub proof fn lemma_spill_worn_frame(
    loc: LocationView,
    start: Coordinate,
    worn: Map<Slot, (char, AnyItem)>,
    floor: Seq<Coordinate>,
    from: int,
)
    ensures
        loc.spilled_worn(start, worn, floor, from) == (LocationView {
            items: loc.spilled_worn(start, worn, floor, from).items,
            ..loc
        }),
    decreases 7 - from,
{
    if 0 <= from < 7 {
        if worn.contains_key(Slot::numbered(from)) {
            lemma_spill_worn_frame(
                loc.with_dropped(start, worn[Slot::numbered(from)].1, floor),
                start,
                worn,
                floor,
                from + 1,
            );
        } else {
            lemma_spill_worn_frame(loc, start, worn, floor, from + 1);
        }
    }
}

/// Taking a dead actor away changes the table, the dead and the floor, and
/// keeps a well-formed location well-formed.
pub proof fn lemma_buried(loc: LocationView, id: Id, floor: Seq<Coordinate>)
    requires
        loc.wf(),
        loc.actors.contains_key(id),
    ensures
        loc.buried(id, floor) == (LocationView {
            actors: loc.actors.remove(id),
            dead: loc.dead.insert(id),
            items: loc.buried(id, floor).items,
            ..loc
        }),
        loc.buried(id, floor).wf(),
{
    let a = loc.actors[id];
    let gone = LocationView { actors: loc.actors.remove(id), dead: loc.dead.insert(id), ..loc };
    lemma_spill_pack_frame(gone, a.pos.coord, a.items_backpack, floor, 0);
    lemma_spill_worn_frame(
        gone.spilled_pack(a.pos.coord, a.items_backpack, floor, 0),
        a.pos.coord,
        a.items_equipped,
        floor,
        0,
    );
    let after = loc.buried(id, floor);
    assert forall|i: Id| #[trigger] after.actors.contains_key(i) implies {
        &&& i < after.counter
        &&& after.actors[i].pos.coord.in_world()
        &&& after.index.contains_key(after.actors[i].pos.coord)
        &&& after.index[after.actors[i].pos.coord] == i
    } by {
        assert(loc.actors.contains_key(i));
    }
    assert forall|i: Id| #[trigger] after.dead.contains(i) implies i < after.counter
        && !after.actors.contains_key(i) by {
        if i != id {
            assert(loc.dead.contains(i));
        }
    }
}

/// Taking the dead away keeps a well-formed location well-formed, leaves
/// the living as they are, and leaves no dead actor in the table.
pub proof fn lemma_swept(loc: LocationView, floors: Seq<Seq<Coordinate>>, from: int, k: int)
    requires
        loc.wf(),
        0 <= from,
        forall|i: Id| #[trigger] loc.actors.contains_key(i) && i < from ==> !loc.actors[i].is_dead(),
    ensures
        ({
            let after = loc.swept(floors, from, loc.counter as int, k);
            &&& after.wf()
            &&& after == (LocationView {
                actors: after.actors,
                dead: after.dead,
                items: after.items,
                ..loc
            })
            &&& forall|i: Id| #[trigger]
                after.actors.contains_key(i) <==> loc.actors.contains_key(i)
                    && !loc.actors[i].is_dead()
            &&& forall|i: Id| #[trigger]
                after.actors.contains_key(i) ==> after.actors[i] == loc.actors[i]
            &&& forall|i: Id| #[trigger]
                after.dead.contains(i) <==> loc.dead.contains(i) || (loc.actors.contains_key(i)
                    && loc.actors[i].is_dead())
        }),
    decreases loc.counter - from,
{
    let upto = loc.counter as int;
    let after = loc.swept(floors, from, upto, k);
    if from < upto {
        let id = from as Id;
        if loc.actors.contains_key(id) && loc.actors[id].is_dead() {
            let next = loc.buried(id, floor_of(floors, k));
            lemma_buried(loc, id, floor_of(floors, k));
            lemma_swept(next, floors, from + 1, k + 1);
            assert forall|i: Id| #[trigger]
                after.actors.contains_key(i) <==> loc.actors.contains_key(i)
                    && !loc.actors[i].is_dead() by {
                if after.actors.contains_key(i) {
                    assert(next.actors.contains_key(i));
                }
                if loc.actors.contains_key(i) && !loc.actors[i].is_dead() {
                    assert(next.actors.contains_key(i));
                }
            }
            assert forall|i: Id| #[trigger] after.actors.contains_key(i) implies after.actors[i]
                == loc.actors[i] by {
                assert(next.actors.contains_key(i));
            }
            assert forall|i: Id| #[trigger]
                after.dead.contains(i) <==> loc.dead.contains(i) || (loc.actors.contains_key(i)
                    && loc.actors[i].is_dead()) by {
                if after.dead.contains(i) && i != id {
                    if next.actors.contains_key(i) {
                        assert(loc.actors.contains_key(i));
                    }
                }
                if loc.actors.contains_key(i) && loc.actors[i].is_dead() && i != id {
                    assert(next.actors.contains_key(i));
                }
            }
        } else {
            lemma_swept(loc, floors, from + 1, k);
        }
    } else {
        assert forall|i: Id| #[trigger]
            after.actors.contains_key(i) <==> loc.actors.contains_key(i)
                && !loc.actors[i].is_dead() by {
            if loc.actors.contains_key(i) {
                assert(i < loc.counter);
            }
        }
        assert forall|i: Id| #[trigger]
            after.dead.contains(i) <==> loc.dead.contains(i) || (loc.actors.contains_key(i)
                && loc.actors[i].is_dead()) by {
            if loc.actors.contains_key(i) {
                assert(i < loc.counter);
            }
        }
    }
}

/// Freeing the cells on which no actor stands keeps a well-formed location
/// well-formed, and settles one in which every actor is alive.
pub proof fn lemma_reindexed(loc: LocationView)
    requires
        loc.wf(),
    ensures
        loc.reindexed().wf(),
        (forall|i: Id| #[trigger] loc.actors.contains_key(i) ==> !loc.actors[i].is_dead())
            ==> loc.reindexed().settled(),
{
    let after = loc.reindexed();
    assert forall|i: Id| #[trigger] after.actors.contains_key(i) implies {
        &&& i < after.counter
        &&& after.actors[i].pos.coord.in_world()
        &&& after.index.contains_key(after.actors[i].pos.coord)
        &&& after.index[after.actors[i].pos.coord] == i
    } by {
        assert(loc.actors.contains_key(i));
        assert(loc.stands(loc.actors[i].pos.coord));
    }
}

/// Spreading the noises keeps a well-formed location well-formed, and a
/// settled one settled.
pub proof fn lemma_noises_wf(loc: LocationView)
    requires
        loc.wf(),
    ensures
        loc.with_noises().wf(),
        loc.settled() ==> loc.with_noises().settled(),
{
    let after = loc.with_noises();
    lemma_noised(loc, loc.counter as int, 0);
    assert forall|i: Id| #[trigger] after.actors.contains_key(i) implies {
        &&& i < after.counter
        &&& after.actors[i].pos.coord.in_world()
        &&& after.index.contains_key(after.actors[i].pos.coord)
        &&& after.index[after.actors[i].pos.coord] == i
    } by {
        assert(loc.actors.contains_key(i));
    }
    assert forall|i: Id| #[trigger] after.dead.contains(i) implies i < after.counter
        && !after.actors.contains_key(i) by {
        assert(loc.dead.contains(i));
    }
    if loc.settled() {
        assert forall|c: Coordinate| #[trigger] after.index.contains_key(c) implies
            after.actors.contains_key(after.index[c]) && after.actors[after.index[c]].pos.coord
            == c by {
            assert(loc.index.contains_key(c));
            assert(loc.actors.contains_key(loc.index[c]));
        }
        assert forall|i: Id| #[trigger] after.actors.contains_key(i) implies !after.actors[i].is_dead() by {
            assert(loc.actors.contains_key(i));
        }
    }
}

/// The first law of the location, for the end of a tick: the end of a
/// tick keeps a well-formed location well-formed, and settles it.
/// Afterwards every actor of the table is alive and is found through
/// the cell it stands on, no two actors stand on one cell, and no cell is
/// occupied but by the actor that stands on it.
pub proof fn lemma_tick_end_wf(
    loc: LocationView,
    floors: Seq<Seq<Coordinate>>,
    rays: Seq<Seq<(Coordinate, i32)>>,
)
    requires
        loc.wf(),
    ensures
        loc.at_tick_end(floors, rays).wf(),
        loc.at_tick_end(floors, rays).settled(),
        loc.at_tick_end(floors, rays).counter == loc.counter,
        loc.at_tick_end(floors, rays).map == loc.map,
        loc.at_tick_end(floors, rays).level == loc.level,
        loc.at_tick_end(floors, rays).turn == loc.turn,
        loc.at_tick_end(floors, rays).player_id == loc.player_id,
{
    let a = loc.with_stats();
    lemma_refreshed_wf(loc, false);
    let b = a.swept(floors, 0, a.counter as int, 0);
    lemma_swept(a, floors, 0, 0);
    let c = b.reindexed();
    lemma_reindexed(b);
    assert(c.settled()) by {
        assert forall|i: Id| #[trigger] b.actors.contains_key(i) implies !b.actors[i].is_dead() by {
            assert(a.actors.contains_key(i));
        }
    }
    let d = c.relit(rays);
    assert(d.wf() && d.settled());
    lemma_noises_wf(d);
}

/// A new actor on a free cell within the world keeps a well-formed
/// location well-formed.
pub proof fn lemma_spawned_wf(loc: LocationView, a: ActorView, sight: Set<Coordinate>)
    requires
        loc.wf(),
        a.pos.coord.in_world(),
        !loc.occupied(a.pos.coord),
        loc.counter < u32::MAX,
    ensures
        loc.with_spawned(a, sight).wf(),
{
    let after = loc.with_spawned(a, sight);
    assert forall|i: Id| #[trigger] after.actors.contains_key(i) implies {
        &&& i < after.counter
        &&& after.actors[i].pos.coord.in_world()
        &&& after.index.contains_key(after.actors[i].pos.coord)
        &&& after.index[after.actors[i].pos.coord] == i
    } by {
        if i != loc.counter {
            assert(loc.actors.contains_key(i));
        }
    }
    assert forall|i: Id| #[trigger] after.dead.contains(i) implies i < after.counter
        && !after.actors.contains_key(i) by {
        assert(loc.dead.contains(i));
    }
}

/// Whether the `j`-th cell of the ray `ray` is the cell `c`, with light of
/// the strength `l` on it.
pub open spec fn brings(ray: Seq<(Coordinate, i32)>, j: int, c: Coordinate, l: int) -> bool {
    0 <= j < ray.len() && ray[j].0 == c && ray[j].1 == l
}

/// The light on a cell after a ray has fallen on the map is the stronger
/// of the light that was there and the strongest that the ray brings.
pub proof fn lemma_lit_by(
    m: Map<Coordinate, u32>,
    ray: Seq<(Coordinate, i32)>,
    from: int,
    c: Coordinate,
)
    requires
        0 <= from,
    ensures
        light_on(lit_by(m, ray, from), c) >= light_on(m, c),
        forall|j: int|
            from <= j < ray.len() && (#[trigger] ray[j]).0 == c ==> light_on(
                lit_by(m, ray, from),
                c,
            ) >= ray[j].1,
        light_on(lit_by(m, ray, from), c) == light_on(m, c) || exists|j: int|
            from <= j && #[trigger] brings(ray, j, c, light_on(lit_by(m, ray, from), c)),
    decreases ray.len() - from,
{
    if from < ray.len() {
        let next = brighter(m, ray[from].0, ray[from].1 as int);
        lemma_lit_by(next, ray, from + 1, c);
        let end = light_on(lit_by(m, ray, from), c);
        if end != light_on(m, c) {
            if end == light_on(next, c) {
                assert(brings(ray, from, c, end));
            } else {
                let j = choose|j: int| from + 1 <= j && #[trigger] brings(ray, j, c, end);
                assert(from <= j && brings(ray, j, c, end));
            }
        }
    }
}

/// The law of the light map: after the rays `rays` have fallen on an
/// unlit map, the light on every cell is the strongest that any ray
/// brings to it, and no light is on a cell to which no ray brings any.
pub proof fn lemma_light_is_brightest(rays: Seq<Seq<(Coordinate, i32)>>, c: Coordinate)
    ensures
        forall|i: int, j: int|
            0 <= i < rays.len() && 0 <= j < rays[i].len() && (#[trigger] rays[i][j]).0 == c
                ==> light_on(lit(Map::empty(), rays, 0), c) >= rays[i][j].1,
        light_on(lit(Map::empty(), rays, 0), c) == 0 || exists|i: int, j: int|
            0 <= i < rays.len() && #[trigger] brings(
                rays[i],
                j,
                c,
                light_on(lit(Map::empty(), rays, 0), c),
            ),
{
    lemma_lit(Map::empty(), rays, 0, c);
}

/// The light on a cell after rays have fallen on the map is the stronger
/// of the light that was there and the strongest that a ray brings.
pub proof fn lemma_lit(
    m: Map<Coordinate, u32>,
    rays: Seq<Seq<(Coordinate, i32)>>,
    from: int,
    c: Coordinate,
)
    requires
        0 <= from,
    ensures
        light_on(lit(m, rays, from), c) >= light_on(m, c),
        forall|i: int, j: int|
            from <= i < rays.len() && 0 <= j < rays[i].len() && (#[trigger] rays[i][j]).0 == c
                ==> light_on(lit(m, rays, from), c) >= rays[i][j].1,
        light_on(lit(m, rays, from), c) == light_on(m, c) || exists|i: int, j: int|
            from <= i < rays.len() && #[trigger] brings(
                rays[i],
                j,
                c,
                light_on(lit(m, rays, from), c),
            ),
    decreases rays.len() - from,
{
    if from < rays.len() {
        let next = lit_by(m, rays[from], 0);
        lemma_lit_by(m, rays[from], 0, c);
        lemma_lit(next, rays, from + 1, c);
        let end = light_on(lit(m, rays, from), c);
        if end != light_on(m, c) {
            if end == light_on(next, c) {
                let j = choose|j: int| 0 <= j && #[trigger] brings(rays[from], j, c, end);
                assert(brings(rays[from], j, c, end));
            } else {
                let (i, j) = choose|i: int, j: int|
                    from + 1 <= i < rays.len() && #[trigger] brings(rays[i], j, c, end);
                assert(from <= i < rays.len() && brings(rays[i], j, c, end));
            }
        }
    }
}

/// Running a hook on every living actor keeps a well-formed location
/// well-formed, and a settled one settled.
pub proof fn lemma_refreshed_wf(loc: LocationView, start: bool)
    requires
        loc.wf(),
    ensures
        (LocationView { actors: partly(loc.actors, loc.counter as int, start), ..loc }).wf(),
        loc.settled() ==> (LocationView {
            actors: partly(loc.actors, loc.counter as int, start),
            ..loc
        }).settled(),
{
    let after = LocationView { actors: partly(loc.actors, loc.counter as int, start), ..loc };
    assert forall|i: Id| #[trigger] after.actors.contains_key(i) implies {
        &&& loc.actors.contains_key(i)
        &&& after.actors[i].pos == loc.actors[i].pos
        &&& after.actors[i].is_dead() == loc.actors[i].is_dead()
    } by {
        lemma_hooked(loc.actors[i], start);
    }
    if loc.settled() {
        assert forall|c: Coordinate| #[trigger] after.index.contains_key(c) implies
            after.actors.contains_key(after.index[c]) && after.actors[after.index[c]].pos.coord
            == c by {
            assert(loc.index.contains_key(c));
            assert(after.actors.contains_key(loc.index[c]));
        }
    }
}

} // verus!
