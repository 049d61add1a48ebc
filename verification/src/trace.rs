//! What a predicted flight leaves behind: the sampled path and the first contact
//! with each obstacle.
//!
//! The engine decides where the ball is after a step and what it touches. What is
//! made of that is decided here: one observation per step goes in, and the trace
//! grows by one position and, where the ball truly touches an obstacle for the
//! first time, by one contact point.
use vstd::prelude::*;
use crate::engine::{ColliderId, Contact};
use crate::store::{members, HandleSet};
use crate::units::Point;

verus! {

/// What one step of the engine showed.
#[derive(Clone, Copy, Debug)]
pub struct Observation {
    /// Where the ball is after the step, in render units.
    pub position: Point,
    /// The first contact pair the engine lists for the ball, if it lists one.
    pub contact: Option<Contact>,
}

/// The record of a flight.
pub struct Trace {
    /// The ball's position after each step, in order.
    pub positions: Seq<Point>,
    /// The ball's position at the first true contact with each obstacle, in order.
    pub contact_points: Seq<Point>,
    /// The obstacles of those contacts, in the same order.
    pub encountered: Seq<ColliderId>,
    /// How many more obstacles may be recorded.
    pub remaining: nat,
}

/// The collider of the pair that is not the ball.
pub open spec fn obstacle(ball: ColliderId, contact: Contact) -> ColliderId {
    if contact.collider1 != ball {
        contact.collider1
    } else {
        contact.collider2
    }
}

/// The pair truly touches: its first manifold exists and has a contact point. The
/// engine also lists pairs that are merely close.
pub open spec fn touches(contact: Contact) -> bool {
    match contact.first_manifold_points {
        Some(points) => points > 0,
        None => false,
    }
}

/// The observation shows a true contact with an obstacle not met before.
pub open spec fn is_new_hit(trace: Trace, ball: ColliderId, contact: Option<Contact>) -> bool {
    match contact {
        Some(pair) => !trace.encountered.contains(obstacle(ball, pair)) && touches(pair),
        None => false,
    }
}

/// The trace of a flight that has not begun.
pub open spec fn start(max_collisions: nat) -> Trace {
    Trace {
        positions: Seq::empty(),
        contact_points: Seq::empty(),
        encountered: Seq::empty(),
        remaining: max_collisions,
    }
}

/// The trace after one more observation.
pub open spec fn observe(trace: Trace, ball: ColliderId, seen: Observation) -> Trace {
    if is_new_hit(trace, ball, seen.contact) {
        Trace {
            positions: trace.positions.push(seen.position),
            contact_points: trace.contact_points.push(seen.position),
            encountered: trace.encountered.push(obstacle(ball, seen.contact.unwrap())),
            remaining: (trace.remaining - 1) as nat,
        }
    } else {
        Trace {
            positions: trace.positions.push(seen.position),
            contact_points: trace.contact_points,
            encountered: trace.encountered,
            remaining: trace.remaining,
        }
    }
}

/// The trace after one more observation is offered: once no further obstacle may
/// be recorded the flight is over, and the trace stays as it is.
pub open spec fn taken(trace: Trace, ball: ColliderId, seen: Observation) -> Trace {
    if trace.remaining == 0 {
        trace
    } else {
        observe(trace, ball, seen)
    }
}

/// The trace of a whole flight: the observations are taken in order until none is
/// left or no further obstacle may be recorded.
pub open spec fn trace_of(max_collisions: nat, ball: ColliderId, seen: Seq<Observation>) -> Trace
    decreases seen.len(),
{
    if seen.len() == 0 {
        start(max_collisions)
    } else {
        taken(trace_of(max_collisions, ball, seen.drop_last()), ball, seen.last())
    }
}

/// The observation at `at` is a true contact, and the first one of the flight.
pub open spec fn first_touch_at(seen: Seq<Observation>, at: int) -> bool {
    &&& 0 <= at < seen.len()
    &&& seen[at].contact.is_some()
    &&& touches(seen[at].contact.unwrap())
    &&& forall|i: int|
        0 <= i < at ==> !(#[trigger] seen[i]).contact.is_some() || !touches(
            seen[i].contact.unwrap(),
        )
}

/// What holds of every trace, whatever the engine showed.
pub open spec fn trace_inv(max_collisions: nat, ball: ColliderId, seen: Seq<Observation>, trace: Trace) -> bool {
    &&& trace.positions.len() <= seen.len()
    &&& trace.remaining > 0 ==> trace.positions.len() == seen.len()
    &&& forall|i: int|
        0 <= i < trace.positions.len() ==> #[trigger] trace.positions[i] == seen[i].position
    &&& trace.contact_points.len() + trace.remaining == max_collisions
    &&& trace.contact_points.len() == trace.encountered.len()
    &&& trace.contact_points.len() <= trace.positions.len()
    &&& trace.encountered.no_duplicates()
    &&& forall|k: int|
        0 <= k < trace.encountered.len() ==> recorded_from(
            ball,
            seen,
            trace,
            k,
        )
    &&& (trace.remaining == 0 && max_collisions > 0) ==> trace.positions.len() > 0
        && trace.positions.last() == trace.contact_points.last()
}

/// The `k`-th contact point was taken at a step whose observation shows a true
/// contact with the `k`-th obstacle.
pub open spec fn recorded_from(ball: ColliderId, seen: Seq<Observation>, trace: Trace, k: int) -> bool {
    exists|i: int|
        0 <= i < trace.positions.len() && i < seen.len() && (#[trigger] seen[i]).contact.is_some()
            && touches(seen[i].contact.unwrap()) && obstacle(ball, seen[i].contact.unwrap())
            == trace.encountered[k] && seen[i].position == trace.contact_points[k]
}

/// Every trace is bounded by the steps taken and the collisions allowed, takes its
/// positions from the observations in order, records no obstacle twice, takes each
/// contact point from a step that shows a true contact, and, once no further
/// obstacle may be recorded, ends at its last contact point.
pub proof fn lemma_trace_inv(max_collisions: nat, ball: ColliderId, seen: Seq<Observation>)
    ensures
        trace_inv(max_collisions, ball, seen, trace_of(max_collisions, ball, seen)),
    decreases seen.len(),
{
    let trace = trace_of(max_collisions, ball, seen);
    if seen.len() == 0 {
    } else {
        let earlier = seen.drop_last();
        let before = trace_of(max_collisions, ball, earlier);
        lemma_trace_inv(max_collisions, ball, earlier);
        assert forall|k: int| 0 <= k < before.encountered.len() implies recorded_from(
            ball,
            seen,
            before,
            k,
        ) by {
            assert(recorded_from(ball, earlier, before, k));
            let i = choose|i: int|
                0 <= i < before.positions.len() && i < earlier.len() && (#[trigger] earlier[i]).contact.is_some()
                    && touches(earlier[i].contact.unwrap()) && obstacle(
                    ball,
                    earlier[i].contact.unwrap(),
                ) == before.encountered[k] && earlier[i].position == before.contact_points[k];
            assert(seen[i] == earlier[i]);
        }
        assert forall|i: int| 0 <= i < before.positions.len() implies #[trigger] before.positions[i]
            == seen[i].position by {
            assert(seen[i] == earlier[i]);
        }
        if before.remaining == 0 {
        } else {
            let last = seen.last();
            let at = seen.len() - 1;
            assert(before.positions.len() == at);
            assert forall|k: int| 0 <= k < trace.encountered.len() implies recorded_from(
                ball,
                seen,
                trace,
                k,
            ) by {
                if k < before.encountered.len() {
                    assert(recorded_from(ball, seen, before, k));
                    let i = choose|i: int|
                        0 <= i < before.positions.len() && i < seen.len() && (#[trigger] seen[i]).contact.is_some()
                            && touches(seen[i].contact.unwrap()) && obstacle(
                            ball,
                            seen[i].contact.unwrap(),
                        ) == before.encountered[k] && seen[i].position == before.contact_points[k];
                    assert(0 <= i < trace.positions.len() && seen[i].contact.is_some());
                } else {
                    assert(is_new_hit(before, ball, last.contact));
                    assert(seen[at] == last);
                    assert(0 <= at < trace.positions.len() && seen[at].contact.is_some());
                }
            }
            if is_new_hit(before, ball, last.contact) {
                let hit = obstacle(ball, last.contact.unwrap());
                assert(trace.encountered == before.encountered.push(hit));
                assert(!before.encountered.contains(hit));
                assert forall|a: int, b: int|
                    0 <= a < trace.encountered.len() && 0 <= b < trace.encountered.len() && a
                        != b implies trace.encountered[a] != trace.encountered[b] by {
                    if a < before.encountered.len() && b < before.encountered.len() {
                    } else if a < before.encountered.len() {
                        assert(before.encountered[a] != hit);
                    } else {
                        assert(before.encountered[b] != hit);
                    }
                }
            }
        }
    }
}

/// A flight of `steps` observations samples at most `steps` positions and records
/// at most `max_collisions` contact points.
pub proof fn lemma_bounded_cost(max_collisions: nat, ball: ColliderId, seen: Seq<Observation>)
    ensures
        trace_of(max_collisions, ball, seen).positions.len() <= seen.len(),
        trace_of(max_collisions, ball, seen).contact_points.len() <= max_collisions,
{
    lemma_trace_inv(max_collisions, ball, seen);
}

/// With one collision allowed, a flight whose first true contact comes at step
/// `at` records exactly that one contact point and samples no position after it.
pub proof fn lemma_early_termination(ball: ColliderId, seen: Seq<Observation>, at: int)
    requires
        first_touch_at(seen, at),
    ensures
        trace_of(1, ball, seen).contact_points == seq![seen[at].position],
        trace_of(1, ball, seen).positions.len() == at + 1,
        trace_of(1, ball, seen).positions.last() == seen[at].position,
    decreases seen.len(),
{
    let earlier = seen.drop_last();
    let before = trace_of(1, ball, earlier);
    lemma_trace_inv(1, ball, earlier);
    lemma_trace_inv(1, ball, seen);
    if at < seen.len() - 1 {
        assert(earlier[at] == seen[at]);
        assert forall|i: int| 0 <= i < at implies !(#[trigger] earlier[i]).contact.is_some()
            || !touches(earlier[i].contact.unwrap()) by {
            assert(earlier[i] == seen[i]);
        }
        lemma_early_termination(ball, earlier, at);
    } else {
        lemma_no_touch_no_contact(1, ball, earlier);
        assert(before.encountered.len() == 0);
        assert(is_new_hit(before, ball, seen.last().contact));
        assert(trace_of(1, ball, seen).contact_points =~= seq![seen[at].position]);
    }
}

/// A flight in which nothing is truly touched records no contact point and samples
/// one position for every step.
pub proof fn lemma_no_touch_no_contact(max_collisions: nat, ball: ColliderId, seen: Seq<Observation>)
    requires
        max_collisions > 0,
        forall|i: int|
            0 <= i < seen.len() ==> !(#[trigger] seen[i]).contact.is_some() || !touches(
                seen[i].contact.unwrap(),
            ),
    ensures
        trace_of(max_collisions, ball, seen).contact_points.len() == 0,
        trace_of(max_collisions, ball, seen).positions.len() == seen.len(),
    decreases seen.len(),
{
    if seen.len() > 0 {
        let earlier = seen.drop_last();
        assert forall|i: int| 0 <= i < earlier.len() implies !(#[trigger] earlier[i]).contact.is_some()
            || !touches(earlier[i].contact.unwrap()) by {
            assert(earlier[i] == seen[i]);
        }
        lemma_no_touch_no_contact(max_collisions, ball, earlier);
        lemma_trace_inv(max_collisions, ball, earlier);
        assert(seen.last() == seen[seen.len() - 1]);
    }
}

/// A flight in which something is truly touched records a contact point, as long
/// as one may be recorded at all.
pub proof fn lemma_touch_is_recorded(
    max_collisions: nat,
    ball: ColliderId,
    seen: Seq<Observation>,
    at: int,
)
    requires
        max_collisions > 0,
        0 <= at < seen.len(),
        seen[at].contact.is_some(),
        touches(seen[at].contact.unwrap()),
    ensures
        trace_of(max_collisions, ball, seen).contact_points.len() >= 1,
    decreases seen.len(),
{
    let earlier = seen.drop_last();
    let before = trace_of(max_collisions, ball, earlier);
    lemma_trace_inv(max_collisions, ball, earlier);
    if at < seen.len() - 1 {
        assert(earlier[at] == seen[at]);
        lemma_touch_is_recorded(max_collisions, ball, earlier, at);
    } else {
        assert(seen.last() == seen[at]);
        if before.remaining > 0 && !is_new_hit(before, ball, seen.last().contact) {
            assert(before.encountered.contains(obstacle(ball, seen[at].contact.unwrap())));
        }
    }
}

/// A flight in which every contact is with one and the same obstacle records at
/// most one contact point, however many steps the contact lasts, and exactly one
/// where the obstacle is truly touched and a contact point may be recorded.
pub proof fn lemma_no_duplicate_hits(
    max_collisions: nat,
    ball: ColliderId,
    seen: Seq<Observation>,
    only: ColliderId,
)
    requires
        forall|i: int|
            0 <= i < seen.len() && (#[trigger] seen[i]).contact.is_some() ==> obstacle(
                ball,
                seen[i].contact.unwrap(),
            ) == only,
    ensures
        trace_of(max_collisions, ball, seen).contact_points.len() <= 1,
        max_collisions > 0 && (exists|at: int|
            0 <= at < seen.len() && (#[trigger] seen[at]).contact.is_some() && touches(
                seen[at].contact.unwrap(),
            )) ==> trace_of(max_collisions, ball, seen).contact_points.len() == 1,
{
    let trace = trace_of(max_collisions, ball, seen);
    lemma_trace_inv(max_collisions, ball, seen);
    if trace.encountered.len() >= 2 {
        assert(recorded_from(ball, seen, trace, 0));
        assert(recorded_from(ball, seen, trace, 1));
        assert(trace.encountered[0] == only);
        assert(trace.encountered[1] == only);
    }
    if max_collisions > 0 && (exists|at: int|
        0 <= at < seen.len() && (#[trigger] seen[at]).contact.is_some() && touches(
            seen[at].contact.unwrap(),
        )) {
        let at = choose|at: int|
            0 <= at < seen.len() && (#[trigger] seen[at]).contact.is_some() && touches(
                seen[at].contact.unwrap(),
            );
        lemma_touch_is_recorded(max_collisions, ball, seen, at);
    }
}

/// Records a flight, one observation at a time.
pub struct TrajectoryRecorder {
    ball: ColliderId,
    positions: Vec<Point>,
    contact_points: Vec<Point>,
    encountered: HandleSet,
    order: Ghost<Seq<ColliderId>>,
    remaining: usize,
}

impl View for TrajectoryRecorder {
    type V = Trace;

    closed spec fn view(&self) -> Trace {
        Trace {
            positions: self.positions@,
            contact_points: self.contact_points@,
            encountered: self.order@,
            remaining: self.remaining as nat,
        }
    }
}

impl TrajectoryRecorder {
    /// The ball's own collider, which is no obstacle.
    pub closed spec fn ball(&self) -> ColliderId {
        self.ball
    }

    /// The set of obstacles met holds just the obstacles of the trace.
    pub closed spec fn wf(&self) -> bool {
        members(self.encountered) =~= self.order@.to_set()
    }

    /// A recorder for the flight of `ball`, in which up to `max_collisions`
    /// obstacles may be recorded.
    pub fn new(ball: ColliderId, max_collisions: usize) -> (r: TrajectoryRecorder)
        ensures
            r.wf(),
            r.ball() == ball,
            r@ == start(max_collisions as nat),
    {
        let r = TrajectoryRecorder {
            ball,
            positions: Vec::new(),
            contact_points: Vec::new(),
            encountered: HandleSet::new(),
            order: Ghost(Seq::empty()),
            remaining: max_collisions,
        };
        assert(r@.positions =~= Seq::<Point>::empty());
        assert(r@.contact_points =~= Seq::<Point>::empty());
        r
    }

    /// Takes what one step showed; says whether a further obstacle may be recorded.
    /// Once none may, the flight is over and nothing more is taken.
    pub fn record(&mut self, seen: Observation) -> (more: bool)
        requires
            old(self).wf(),
        ensures
            final(self).wf(),
            final(self).ball() == old(self).ball(),
            final(self)@ == taken(old(self)@, old(self).ball(), seen),
            more == (final(self)@.remaining > 0),
    {
        if self.remaining == 0 {
            return false;
        }
        self.positions.push(seen.position);
        match seen.contact {
            Some(pair) => {
                let other = if pair.collider1 != self.ball {
                    pair.collider1
                } else {
                    pair.collider2
                };
                let touching = match pair.first_manifold_points {
                    Some(points) => points > 0,
                    None => false,
                };
                if !self.encountered.contains(other) && touching {
                    self.encountered.insert(other);
                    self.contact_points.push(seen.position);
                    self.remaining = self.remaining - 1;
                    proof {
                        self.order@ = self.order@.push(other);
                        assert(old(self).order@.push(other).to_set() =~= old(self).order@.to_set().insert(
                            other,
                        )) by {
                            let grown = old(self).order@.push(other);
                            assert forall|h: ColliderId| grown.contains(h) implies old(
                                self,
                            ).order@.to_set().insert(other).contains(h) by {
                                let i = choose|i: int| 0 <= i < grown.len() && grown[i] == h;
                                if i < old(self).order@.len() {
                                    assert(old(self).order@[i] == h);
                                }
                            }
                            assert forall|h: ColliderId|
                                old(self).order@.to_set().insert(other).contains(
                                    h,
                                ) implies grown.contains(h) by {
                                if h == other {
                                    assert(grown[grown.len() - 1] == h);
                                } else {
                                    let i = choose|i: int|
                                        0 <= i < old(self).order@.len() && old(self).order@[i] == h;
                                    assert(grown[i] == h);
                                }
                            }
                        }
                    }
                }
            },
            None => {},
        }
        self.remaining > 0
    }

    /// How many more obstacles may be recorded.
    pub fn remaining(&self) -> (r: usize)
        ensures
            r == self@.remaining,
    {
        self.remaining
    }

    /// The sampled positions and the contact points of the flight.
    pub fn finish(self) -> (r: (Vec<Point>, Vec<Point>))
        ensures
            r.0@ == self@.positions,
            r.1@ == self@.contact_points,
    {
        (self.positions, self.contact_points)
    }
}

} // verus!
