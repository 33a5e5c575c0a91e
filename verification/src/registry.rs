//! The set of live identities: allocation, the frame's removals, listings.

use std::collections::BTreeSet;
use vstd::prelude::*;
use vstd::std_specs::btree::{axiom_spec_btree_keys_iter, spec_btree_keys_iter};
use vstd::std_specs::iter::IteratorSpec;
use crate::kind::ObjectType;
use crate::rules::{frame_order, leaves_play, order_for, Keys, Order, Sighting};
use crate::stepper::{advance, step, Action, News, Phase};
use crate::walk::{ascending, ascending_ids};

verus! {

/// The live identities, kept in ascending order, and where the walk through
/// the present frame stands.
pub struct ObjSys {
    objs: BTreeSet<u64>,
    phase: Phase,
}

impl View for ObjSys {
    type V = Set<u64>;

    closed spec fn view(&self) -> Set<u64> {
        self.objs@
    }
}

/// Why no shape was added.
#[derive(Copy, Clone, Debug, PartialEq, Eq, Structural)]
pub enum SpawnError {
    /// Every identity of the kind's range is live.
    RangeExhausted,
}

/// What a frame asks of the caller.
pub struct FramePlan {
    /// One order for each sighting, in the order of the sightings.
    pub orders: Vec<Order>,
    /// The identities that left the set, each to be taken from the collision
    /// engine as well.
    pub removed: Vec<u64>,
}

/// Whether `id` is the lowest identity of `kind`'s range that is not in `live`.
pub open spec fn lowest_free(live: Set<u64>, kind: ObjectType, id: u64) -> bool {
    &&& kind.owns(id)
    &&& !live.contains(id)
    &&& forall|j: u64| kind.owns(j) && j < id ==> live.contains(j)
}

/// Whether every identity of `kind`'s range is in `live`.
pub open spec fn exhausted(live: Set<u64>, kind: ObjectType) -> bool {
    forall|j: u64| kind.owns(j) ==> live.contains(j)
}

/// Whether some sighting in `seen` shows `id` leaving play.
pub open spec fn doomed(seen: Seq<Sighting>, id: u64) -> bool {
    exists|k: int| 0 <= k < seen.len() && (#[trigger] seen[k]).id == id && leaves_play(seen[k])
}

/// The identities that a frame takes out of `live`, in the order in which
/// `seen` first shows each of them leaving play.
pub open spec fn removals(live: Set<u64>, seen: Seq<Sighting>) -> Seq<u64>
    decreases seen.len(),
{
    if seen.len() == 0 {
        Seq::empty()
    } else {
        let earlier = removals(live, seen.drop_last());
        let id = seen.last().id;
        if leaves_play(seen.last()) && live.contains(id) && !earlier.contains(id) {
            earlier.push(id)
        } else {
            earlier
        }
    }
}

/// The bodies a collision engine holds after it has removed `ids` one by one.
pub open spec fn bodies_after_removals(bodies: Set<u64>, ids: Seq<u64>) -> Set<u64>
    decreases ids.len(),
{
    if ids.len() == 0 {
        bodies
    } else {
        bodies_after_removals(bodies, ids.drop_last()).remove(ids.last())
    }
}

/// Whether a collision engine that holds `bodies` knows each of `ids` at the
/// moment it is asked to remove it, when asked one by one.
pub open spec fn removals_welcome(bodies: Set<u64>, ids: Seq<u64>) -> bool
    decreases ids.len(),
{
    if ids.len() == 0 {
        true
    } else {
        &&& removals_welcome(bodies, ids.drop_last())
        &&& bodies_after_removals(bodies, ids.drop_last()).contains(ids.last())
    }
}

impl ObjSys {
    /// Where the walk through the present frame stands.
    pub closed spec fn phase(&self) -> Phase {
        self.phase
    }

    /// The live identities are finitely many.
    pub proof fn lemma_finitely_many(&self)
        ensures
            self@.finite(),
    {
        axiom_spec_btree_keys_iter(&self.objs);
        vstd::seq_lib::seq_to_set_is_finite(spec_btree_keys_iter(&self.objs).remaining().unref());
    }

    /// An empty set of identities, about to poll for its first frame.
    pub fn new() -> (sys: ObjSys)
        ensures
            sys@ == Set::<u64>::empty(),
            sys.phase() == Phase::Polling,
    {
        ObjSys { objs: BTreeSet::new(), phase: Phase::Polling }
    }

    /// Takes in what the caller learned from the collision engine and says
    /// what it is to do next. News that cannot come in the present phase is
    /// turned down and changes nothing. The live identities stay as they are.
    pub fn add_time(&mut self, news: News) -> (action: Option<Action>)
        ensures
            final(self)@ == old(self)@,
            match step(old(self).phase(), news) {
                Some((next, act)) => final(self).phase() == next && action == Some(act),
                None => final(self).phase() == old(self).phase() && action is None,
            },
    {
        match advance(self.phase, news) {
            Some((next, act)) => {
                self.phase = next;
                Some(act)
            },
            None => None,
        }
    }

    /// Whether `id` is live.
    pub fn contains(&self, id: u64) -> (yes: bool)
        ensures
            yes == self@.contains(id),
    {
        self.objs.contains(&id)
    }

    /// The live identities in ascending order.
    pub fn ids(&self) -> (list: Vec<u64>)
        ensures
            list@.to_set() == self@,
            ascending(list@),
    {
        ascending_ids(&self.objs)
    }

    /// The lowest identity of `ty`'s range that is not live, if there is one.
    pub fn free_id_by_type(&self, ty: ObjectType) -> (found: Option<u64>)
        ensures
            match found {
                Some(id) => lowest_free(self@, ty, id),
                None => exhausted(self@, ty),
            },
    {
        let last = ty.highest_id();
        let mut id = ty.lowest_id();
        loop
            invariant
                last == ty.last_id(),
                ty.first_id() <= id <= last,
                forall|j: u64| ty.owns(j) && j < id ==> self@.contains(j),
            decreases last - id,
        {
            if !self.objs.contains(&id) {
                return Some(id);
            }
            if id == last {
                return None;
            }
            id += 1;
        }
    }

    /// Takes the lowest free identity of `group`'s range into the set and
    /// returns it, for the caller to register the body under. Fails, and
    /// changes nothing, when the range has no free identity.
    pub fn add_hb(&mut self, group: ObjectType) -> (added: Result<u64, SpawnError>)
        ensures
            match added {
                Ok(id) => {
                    &&& lowest_free(old(self)@, group, id)
                    &&& final(self)@ == old(self)@.insert(id)
                    &&& ObjectType::kind_of(id) == group
                },
                Err(e) => {
                    &&& e == SpawnError::RangeExhausted
                    &&& exhausted(old(self)@, group)
                    &&& final(self)@ == old(self)@
                },
            },
            final(self).phase() == old(self).phase(),
    {
        match self.free_id_by_type(group) {
            Some(id) => {
                self.objs.insert(id);
                Ok(id)
            },
            None => Err(SpawnError::RangeExhausted),
        }
    }

    /// The live shapes to draw: each identity with its kind, lowest first.
    pub fn draw_all(&self) -> (listing: Vec<(u64, ObjectType)>)
        ensures
            listing@.map_values(|e: (u64, ObjectType)| e.0).to_set() == self@,
            ascending(listing@.map_values(|e: (u64, ObjectType)| e.0)),
            forall|k: int| 0 <= k < listing@.len() ==> listing@[k].1 == ObjectType::kind_of(listing@[k].0),
    {
        let list = self.ids();
        let mut listing: Vec<(u64, ObjectType)> = Vec::new();
        let mut i: usize = 0;
        while i < list.len()
            invariant
                i <= list.len(),
                listing@.len() == i,
                forall|k: int| 0 <= k < i ==> listing@[k] == (list@[k], ObjectType::kind_of(list@[k])),
            decreases list.len() - i,
        {
            let id = list[i];
            listing.push((id, ObjectType::from_id(id)));
            i += 1;
        }
        assert(listing@.map_values(|e: (u64, ObjectType)| e.0) =~= list@);
        listing
    }

    /// How many live shapes are balls.
    pub fn count_balls(&self) -> (count: usize)
        ensures
            count == self@.filter(|id: u64| ObjectType::kind_of(id) == ObjectType::Ball).len(),
    {
        let list = self.ids();
        let mut count: usize = 0;
        let ghost mut balls: Set<u64> = Set::empty();
        let mut i: usize = 0;
        while i < list.len()
            invariant
                i <= list.len(),
                ascending(list@),
                balls.finite(),
                count == balls.len(),
                count <= i,
                forall|id: u64| balls.contains(id) <==> (ObjectType::kind_of(id) == ObjectType::Ball
                    && exists|k: int| 0 <= k < i && #[trigger] list@[k] == id),
            decreases list.len() - i,
        {
            let id = list[i];
            if ObjectType::from_id(id).is_ball() {
                proof {
                    assert(!balls.contains(id));
                    balls = balls.insert(id);
                }
                count += 1;
            }
            i += 1;
        }
        proof {
            let wanted = self@.filter(|id: u64| ObjectType::kind_of(id) == ObjectType::Ball);
            assert forall|id: u64| balls.contains(id) <==> wanted.contains(id) by {
                if wanted.contains(id) {
                    assert(list@.to_set().contains(id));
                    let k = list@.index_of(id);
                    assert(list@[k] == id);
                }
                if balls.contains(id) {
                    let k = choose|k: int| 0 <= k < i && #[trigger] list@[k] == id;
                    assert(list@.contains(list@[k]));
                    assert(list@.to_set().contains(id));
                }
            }
            assert(balls =~= wanted);
        }
        count
    }

    /// Runs the frame's rules over the sightings: gives each its order, and
    /// takes out of the set every live ball that is seen at the bottom edge.
    /// A collision engine that held the live identities before, and removes
    /// what the plan names, holds the live identities after.
    pub fn update_all(&mut self, keys: Keys, seen: &Vec<Sighting>) -> (plan: FramePlan)
        ensures
            plan.orders@.len() == seen@.len(),
            forall|k: int| 0 <= k < seen@.len() ==> plan.orders@[k] == order_for(keys, seen@[k]),
            forall|id: u64| final(self)@.contains(id) <==> old(self)@.contains(id) && !doomed(seen@, id),
            forall|id: u64| plan.removed@.contains(id) <==> old(self)@.contains(id) && doomed(seen@, id),
            plan.removed@.no_duplicates(),
            plan.removed@ == removals(old(self)@, seen@),
            removals_welcome(old(self)@, plan.removed@),
            bodies_after_removals(old(self)@, plan.removed@) == final(self)@,
            final(self).phase() == old(self).phase(),
    {
        let ghost before = self@;
        let mut orders: Vec<Order> = Vec::new();
        let mut removed: Vec<u64> = Vec::new();
        let mut i: usize = 0;
        while i < seen.len()
            invariant
                i <= seen.len(),
                orders@.len() == i,
                forall|k: int| 0 <= k < i ==> orders@[k] == order_for(keys, seen@[k]),
                forall|id: u64| self@.contains(id) <==> before.contains(id) && !doomed(seen@.take(i as int), id),
                forall|id: u64| removed@.contains(id) <==> before.contains(id) && doomed(seen@.take(i as int), id),
                removed@.no_duplicates(),
                removed@ == removals(before, seen@.take(i as int)),
                self.phase() == old(self).phase(),
            decreases seen.len() - i,
        {
            let sighting = seen[i];
            let order = frame_order(keys, sighting);
            let ghost live = self@;
            let ghost gone = removed@;
            let dead = match order {
                Order::Ball(ball) => !ball.alive,
                _ => false,
            };
            if dead {
                let was_live = self.objs.remove(&sighting.id);
                if was_live {
                    removed.push(sighting.id);
                }
            }
            orders.push(order);
            proof {
                let shorter = seen@.take(i as int);
                let longer = seen@.take(i + 1);
                let taken = dead && live.contains(sighting.id);
                lemma_one_more_sighting(seen@, i as int);
                assert(longer.drop_last() =~= shorter);
                assert(live.contains(sighting.id) <==> before.contains(sighting.id) && !doomed(shorter, sighting.id));
                assert(gone.contains(sighting.id) <==> before.contains(sighting.id) && doomed(shorter, sighting.id));
                if taken {
                    assert(removed@ =~= gone.push(sighting.id));
                    lemma_push_of_a_stranger(gone, sighting.id);
                } else {
                    assert(removed@ =~= gone);
                }
                assert forall|id: u64| self@.contains(id) <==> before.contains(id) && !doomed(longer, id) by {
                    assert(live.contains(id) <==> before.contains(id) && !doomed(shorter, id));
                }
                assert forall|id: u64| removed@.contains(id) <==> before.contains(id) && doomed(longer, id) by {
                    assert(live.contains(id) <==> before.contains(id) && !doomed(shorter, id));
                    assert(gone.contains(id) <==> before.contains(id) && doomed(shorter, id));
                }
            }
            i += 1;
        }
        assert(seen@.take(i as int) =~= seen@);
        proof {
            lemma_frame_keeps_lockstep(before, self@, removed@, before);
        }
        FramePlan { orders, removed }
    }
}

/// One sighting more dooms what was doomed before, and the identity it shows
/// if that one leaves play.
proof fn lemma_one_more_sighting(seen: Seq<Sighting>, n: int)
    requires
        0 <= n < seen.len(),
    ensures
        forall|id: u64| doomed(seen.take(n + 1), id) <==> (doomed(seen.take(n), id) || (seen[n].id == id
            && leaves_play(seen[n]))),
{
    let shorter = seen.take(n);
    let longer = seen.take(n + 1);
    assert(longer[n] == seen[n]);
    assert forall|id: u64| doomed(longer, id) <==> (doomed(shorter, id) || (seen[n].id == id && leaves_play(
        seen[n],
    ))) by {
        if doomed(shorter, id) {
            let k = choose|k: int| 0 <= k < shorter.len() && (#[trigger] shorter[k]).id == id && leaves_play(shorter[k]);
            assert(longer[k] == shorter[k]);
        }
        if doomed(longer, id) {
            let k = choose|k: int| 0 <= k < longer.len() && (#[trigger] longer[k]).id == id && leaves_play(longer[k]);
            if k < n {
                assert(shorter[k] == longer[k]);
            }
        }
    }
}

/// A list without duplicates stays so when an identity that it lacks is put
/// at its end, and then holds that identity besides what it held.
proof fn lemma_push_of_a_stranger(list: Seq<u64>, id: u64)
    requires
        list.no_duplicates(),
        !list.contains(id),
    ensures
        list.push(id).no_duplicates(),
        forall|other: u64| list.push(id).contains(other) <==> (list.contains(other) || other == id),
{
    let longer = list.push(id);
    assert forall|a: int, b: int| 0 <= a < longer.len() && 0 <= b < longer.len() && a != b implies longer[a]
        != longer[b] by {
        if a < list.len() {
            assert(list.contains(list[a]));
        }
        if b < list.len() {
            assert(list.contains(list[b]));
        }
    }
    assert forall|other: u64| longer.contains(other) <==> (list.contains(other) || other == id) by {
        assert(longer.last() == id);
        if list.contains(other) {
            let k = list.index_of(other);
            assert(longer[k] == other);
        }
        if longer.contains(other) {
            let k = longer.index_of(other);
            if k < list.len() {
                assert(list[k] == other);
            }
        }
    }
}

/// Whatever a frame leaves of the live identities is settled by them and by
/// the sightings: two outcomes that both keep exactly what is not doomed are
/// the same.
pub proof fn lemma_frame_outcome_is_settled(live: Set<u64>, seen: Seq<Sighting>, first: Set<u64>, second: Set<u64>)
    requires
        forall|id: u64| first.contains(id) <==> live.contains(id) && !doomed(seen, id),
        forall|id: u64| second.contains(id) <==> live.contains(id) && !doomed(seen, id),
    ensures
        first == second,
{
    assert(first =~= second);
}

/// A range has one lowest free identity: what a spawn hands out is settled
/// by the live identities and the kind.
pub proof fn lemma_lowest_free_is_settled(live: Set<u64>, kind: ObjectType, a: u64, b: u64)
    requires
        lowest_free(live, kind, a),
        lowest_free(live, kind, b),
    ensures
        a == b,
        !exhausted(live, kind),
{
}

/// Removing, one by one, identities that are all held and all different is
/// welcome at every turn, and leaves the bodies without them.
pub proof fn lemma_removals_one_by_one(bodies: Set<u64>, ids: Seq<u64>)
    requires
        ids.no_duplicates(),
        forall|k: int| 0 <= k < ids.len() ==> bodies.contains(ids[k]),
    ensures
        removals_welcome(bodies, ids),
        forall|id: u64| bodies_after_removals(bodies, ids).contains(id) <==> bodies.contains(id) && !ids.contains(id),
    decreases ids.len(),
{
    if ids.len() > 0 {
        let front = ids.drop_last();
        lemma_removals_one_by_one(bodies, front);
        assert(!front.contains(ids.last())) by {
            if front.contains(ids.last()) {
                let k = front.index_of(ids.last());
                assert(ids[k] == ids.last());
            }
        }
        assert forall|id: u64| bodies_after_removals(bodies, ids).contains(id) <==> bodies.contains(id)
            && !ids.contains(id) by {
            if front.contains(id) {
                let k = front.index_of(id);
                assert(ids[k] == id);
            }
            if ids.contains(id) && id != ids.last() {
                let k = ids.index_of(id);
                assert(front[k] == id);
            }
        }
    }
}

/// A collision engine whose bodies mirror the live identities before a frame
/// mirrors them after it, once it has carried out the frame's removals, and
/// is never asked to remove a body it does not hold.
pub proof fn lemma_frame_keeps_lockstep(before: Set<u64>, after: Set<u64>, removed: Seq<u64>, bodies: Set<u64>)
    requires
        bodies == before,
        removed.no_duplicates(),
        forall|id: u64| removed.contains(id) <==> before.contains(id) && !after.contains(id),
        after.subset_of(before),
    ensures
        removals_welcome(bodies, removed),
        bodies_after_removals(bodies, removed) == after,
{
    assert forall|k: int| 0 <= k < removed.len() implies bodies.contains(removed[k]) by {
        assert(removed.contains(removed[k]));
    }
    lemma_removals_one_by_one(bodies, removed);
    assert(bodies_after_removals(bodies, removed) =~= after);
}

/// A collision engine whose bodies mirror the live identities before a spawn
/// does not hold the identity that the spawn hands out, and mirrors them
/// again once it has added that body.
pub proof fn lemma_spawn_keeps_lockstep(before: Set<u64>, after: Set<u64>, kind: ObjectType, id: u64, bodies: Set<u64>)
    requires
        bodies == before,
        lowest_free(before, kind, id),
        after == before.insert(id),
    ensures
        !bodies.contains(id),
        bodies.insert(id) == after,
        ObjectType::kind_of(id) == kind,
{
}

} // verus!
