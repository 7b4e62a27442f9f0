use vstd::prelude::*;
use crate::actions::Action;
use priority_queue::PriorityQueue;

verus! {

#[verifier::external_type_specification]
#[verifier::external_body]
#[verifier::reject_recursive_types(I)]
#[verifier::reject_recursive_types(P)]
#[verifier::reject_recursive_types(H)]
pub struct ExPriorityQueue<I, P, H>(PriorityQueue<I, P, H>) where I: std::hash::Hash + Eq, P: Ord;

#[verifier::external_type_specification]
#[verifier::external_body]
pub struct ExInstant(std::time::Instant);

/// The items of a queue with their priorities.
pub uninterp spec fn queue_entries(q: PriorityQueue<u64, u64>) -> Map<u64, u64>;

pub open spec fn no_entries() -> Map<u64, u64> {
    Map::empty()
}

/// An empty queue (`PriorityQueue::new`).
#[verifier::external_body]
fn queue_new() -> (made: PriorityQueue<u64, u64>)
    ensures
        queue_entries(made) == no_entries(),
{
    PriorityQueue::new()
}

/// Inserts an item with a priority, replacing the priority of an equal item already
/// there and handing back the old one (`PriorityQueue::push`).
#[verifier::external_body]
fn queue_push(q: &mut PriorityQueue<u64, u64>, item: u64, priority: u64) -> (r: Option<u64>)
    ensures
        queue_entries(*final(q)) == queue_entries(*old(q)).insert(item, priority),
        r == (if queue_entries(*old(q)).dom().contains(item) {
            Some(queue_entries(*old(q))[item])
        } else {
            None
        }),
{
    q.push(item, priority)
}

/// An item of the greatest priority, with that priority, or `None` when the queue is
/// empty (`PriorityQueue::peek`).
#[verifier::external_body]
fn queue_peek(q: &PriorityQueue<u64, u64>) -> (r: Option<(u64, u64)>)
    ensures
        r is None <==> queue_entries(*q).dom().len() == 0,
        r matches Some((i, p)) ==> queue_entries(*q).dom().contains(i) && queue_entries(*q)[i] == p
            && forall|j: u64| #[trigger] queue_entries(*q).dom().contains(j) ==> queue_entries(*q)[j] <= p,
{
    q.peek().map(|(i, p)| (*i, *p))
}

/// Removes an item of the greatest priority and hands it back with its priority, or
/// `None` when the queue is empty (`PriorityQueue::pop`).
#[verifier::external_body]
fn queue_pop(q: &mut PriorityQueue<u64, u64>) -> (r: Option<(u64, u64)>)
    ensures
        queue_entries(*old(q)).dom().len() == 0 ==> (r is None && queue_entries(*final(q)) == queue_entries(*old(q))),
        queue_entries(*old(q)).dom().len() > 0 ==> (r matches Some((i, p)) && queue_entries(*old(q)).dom().contains(i)
            && queue_entries(*old(q))[i] == p
            && (forall|j: u64| #[trigger] queue_entries(*old(q)).dom().contains(j) ==> queue_entries(*old(q))[j] <= p)
            && queue_entries(*final(q)) == queue_entries(*old(q)).remove(i)),
{
    q.pop()
}

/// The present moment (`Instant::now`).
#[verifier::external_body]
fn instant_now() -> (t: std::time::Instant) {
    std::time::Instant::now()
}

/// Whole milliseconds from `start` to now (`Instant::elapsed`).
#[verifier::external_body]
fn millis_since(start: &std::time::Instant) -> (ms: u64) {
    start.elapsed().as_millis() as u64
}

/// Actions waiting for their moment, each under an id that tells the order they were
/// sent in; moments are milliseconds since the queue was made, and `clock` is the last
/// such reading taken.
pub struct TimedActions {
    id: u64,
    queue: PriorityQueue<u64, u64>,
    actions: Vec<(u64, Action)>,
    start: std::time::Instant,
    clock: u64,
}

/// The moment an entry of the queue stands for: the earlier, the greater its priority.
pub open spec fn moment(priority: u64) -> int {
    u64::MAX - priority
}

/// The moments with one more action due at `at`.
pub open spec fn with_moment(m: Map<u64, u64>, id: u64, at: u64) -> Map<u64, u64> {
    m.insert(id, (u64::MAX - at) as u64)
}

impl TimedActions {
    /// The moment of each waiting action, by id.
    pub closed spec fn moments(&self) -> Map<u64, u64> {
        queue_entries(self.queue)
    }

    /// The waiting actions with their ids, in the order they were sent.
    pub closed spec fn waiting(&self) -> Seq<(u64, Action)> {
        self.actions@
    }

    /// The id the next action gets.
    pub closed spec fn next_id(&self) -> u64 {
        self.id
    }

    /// The last reading of the clock, in milliseconds since the queue was made.
    pub closed spec fn clock(&self) -> u64 {
        self.clock
    }

    /// Every waiting action has its own id, below the next one, and a moment; the
    /// queue holds nothing else.
    pub closed spec fn wf(&self) -> bool {
        &&& queue_entries(self.queue).dom().finite()
        &&& forall|k: int| 0 <= k < self.actions@.len() ==> queue_entries(self.queue).dom().contains(
            #[trigger] self.actions@[k].0,
        ) && self.actions@[k].0 < self.id
        &&& forall|k: int, m: int| 0 <= k < m < self.actions@.len() ==> #[trigger] self.actions@[k].0
            != #[trigger] self.actions@[m].0
        &&& forall|i: u64| #[trigger] queue_entries(self.queue).dom().contains(i) ==> exists|k: int|
            0 <= k < self.actions@.len() && #[trigger] self.actions@[k].0 == i
    }

    /// Setting the clock reading keeps the queue well formed.
    proof fn lemma_wf_keeps(a: TimedActions, b: TimedActions)
        requires
            a.wf(),
            a.actions@ == b.actions@,
            queue_entries(a.queue) == queue_entries(b.queue),
            a.id == b.id,
        ensures
            b.wf(),
    {
        assert forall|i: u64| #[trigger] queue_entries(b.queue).dom().contains(i) implies exists|k: int|
            0 <= k < b.actions@.len() && #[trigger] b.actions@[k].0 == i by {
            let k = choose|k: int| 0 <= k < a.actions@.len() && #[trigger] a.actions@[k].0 == i;
            assert(b.actions@[k].0 == i);
        }
    }

    pub fn new() -> (t: TimedActions)
        ensures
            t.wf(),
            t.waiting().len() == 0,
            t.moments() == no_entries(),
            t.next_id() == 0,
            t.clock() == 0,
    {
        TimedActions { id: 0, queue: queue_new(), actions: Vec::new(), start: instant_now(), clock: 0 }
    }

    /// Queues an action for a moment.
    pub fn send_at(&mut self, action: Action, at: u64)
        requires
            old(self).wf(),
            old(self).next_id() < u64::MAX,
        ensures
            final(self).wf(),
            final(self).moments() == with_moment(old(self).moments(), old(self).next_id(), at),
            final(self).waiting() == old(self).waiting().push((old(self).next_id(), action)),
            final(self).next_id() == old(self).next_id() + 1,
            final(self).clock() == old(self).clock(),
    {
        let ghost before = self.actions@;
        let id = self.id;
        let _ = queue_push(&mut self.queue, id, u64::MAX - at);
        self.actions.push((id, action));
        self.id = id + 1;
        proof {
            assert forall|i: u64| #[trigger] queue_entries(self.queue).dom().contains(i) implies exists|k: int|
                0 <= k < self.actions@.len() && #[trigger] self.actions@[k].0 == i by {
                if i == id {
                    assert(self.actions@[before.len() as int].0 == i);
                } else {
                    let k = choose|k: int| 0 <= k < before.len() && #[trigger] before[k].0 == i;
                    assert(self.actions@[k].0 == i);
                }
            }
        }
    }

    /// Queues an action for `duration_ms` from now: the clock is read, and the action is
    /// due at that reading plus `duration_ms`. Hands back whether it was queued, which it
    /// is not when the moment or the ids would run past their range.
    pub fn send_after(&mut self, action: Action, duration_ms: u64) -> (queued: bool)
        requires
            old(self).wf(),
        ensures
            final(self).wf(),
            queued ==> exists|at: u64| at >= duration_ms && final(self).moments() == #[trigger] with_moment(
                old(self).moments(),
                old(self).next_id(),
                at,
            ),
            queued ==> final(self).waiting() == old(self).waiting().push((old(self).next_id(), action)),
            !queued ==> final(self).moments() == old(self).moments() && final(self).waiting() == old(self).waiting(),
            queued ==> final(self).next_id() == old(self).next_id() + 1,
            !queued ==> final(self).next_id() == old(self).next_id(),
            old(self).next_id() == u64::MAX ==> !queued,
            old(self).next_id() < u64::MAX && duration_ms == 0 ==> queued,
            queued <==> old(self).next_id() < u64::MAX && final(self).clock() + duration_ms <= u64::MAX,
            queued ==> final(self).moments() == with_moment(
                old(self).moments(),
                old(self).next_id(),
                (final(self).clock() + duration_ms) as u64,
            ),
    {
        let now = millis_since(&self.start);
        if self.id == u64::MAX || now > u64::MAX - duration_ms {
            let ghost before = *self;
            self.clock = now;
            proof {
                Self::lemma_wf_keeps(before, *self);
            }
            return false;
        }
        self.send_at(action, now + duration_ms);
        let ghost before = *self;
        self.clock = now;
        proof {
            Self::lemma_wf_keeps(before, *self);
        }
        true
    }

    /// Takes the action due first, where it is due at `now` or before.
    pub fn pop_ready_at(&mut self, now: u64) -> (r: Option<Action>)
        requires
            old(self).wf(),
        ensures
            final(self).wf(),
            final(self).next_id() == old(self).next_id(),
            final(self).clock() == old(self).clock(),
            (exists|i: u64| #[trigger] old(self).moments().dom().contains(i) && moment(old(self).moments()[i]) <= now)
                <==> r is Some,
            r is None ==> final(self).moments() == old(self).moments() && final(self).waiting() == old(self).waiting(),
            r matches Some(a) ==> exists|k: int| 0 <= k < old(self).waiting().len() && #[trigger] old(self).waiting()[k].1 == a
                && moment(old(self).moments()[old(self).waiting()[k].0]) <= now
                && (forall|j: u64| #[trigger] old(self).moments().dom().contains(j) ==> moment(
                    old(self).moments()[old(self).waiting()[k].0],
                ) <= moment(old(self).moments()[j]))
                && final(self).waiting() == old(self).waiting().remove(k)
                && final(self).moments() == old(self).moments().remove(old(self).waiting()[k].0),
    {
        let ghost e0 = queue_entries(self.queue);
        let ghost a0 = self.actions@;
        match queue_peek(&self.queue) {
            None => {
                proof {
                    e0.dom().lemma_len0_is_empty();
                }
                None
            },
            Some((pi, p)) => {
                assert(e0.dom().contains(pi) && moment(e0[pi]) == u64::MAX - p);
                if u64::MAX - p > now {
                    assert forall|i: u64| #[trigger] e0.dom().contains(i) implies moment(e0[i]) > now by {}
                    return None;
                }
                assert(e0.dom().len() > 0) by {
                    if e0.dom().len() == 0 {
                        e0.dom().lemma_len0_is_empty();
                    }
                }
                match queue_pop(&mut self.queue) {
                    None => None,
                    Some((item, pp)) => {
                        assert(pp == p);
                        let ghost k0 = choose|k: int| 0 <= k < a0.len() && #[trigger] a0[k].0 == item;
                        let mut k: usize = 0;
                        while k < self.actions.len() && self.actions[k].0 != item
                            invariant
                                k <= self.actions.len(),
                                self.actions@ == a0,
                                0 <= k0 < a0.len(),
                                a0[k0].0 == item,
                                forall|m: int| 0 <= m < k ==> a0[m].0 != item,
                            decreases self.actions.len() - k,
                        {
                            k = k + 1;
                        }
                        let (_, action) = self.actions.remove(k);
                        proof {
                            assert(self.actions@ == a0.remove(k as int));
                            assert forall|i: u64| #[trigger] queue_entries(self.queue).dom().contains(i) implies exists|m: int|
                                0 <= m < self.actions@.len() && #[trigger] self.actions@[m].0 == i by {
                                let m = choose|m: int| 0 <= m < a0.len() && #[trigger] a0[m].0 == i;
                                if m < k {
                                    assert(self.actions@[m].0 == i);
                                } else {
                                    assert(m != k);
                                    assert(self.actions@[m - 1].0 == i);
                                }
                            }
                            assert forall|m: int| 0 <= m < self.actions@.len() implies queue_entries(self.queue).dom().contains(
                                #[trigger] self.actions@[m].0,
                            ) && self.actions@[m].0 < self.id by {
                                if m < k {
                                    assert(self.actions@[m] == a0[m]);
                                } else {
                                    assert(self.actions@[m] == a0[m + 1]);
                                }
                            }
                            assert forall|m1: int, m2: int| 0 <= m1 < m2 < self.actions@.len() implies #[trigger] self.actions@[m1].0
                                != #[trigger] self.actions@[m2].0 by {
                                let x1 = if m1 < k { m1 } else { m1 + 1 };
                                let x2 = if m2 < k { m2 } else { m2 + 1 };
                                assert(self.actions@[m1] == a0[x1]);
                                assert(self.actions@[m2] == a0[x2]);
                            }
                            assert(a0[k as int].1 == action);
                            assert(a0[k as int].0 == item);
                            assert(moment(e0[a0[k as int].0]) <= now);
                            assert(forall|j: u64| #[trigger] e0.dom().contains(j) ==> moment(e0[a0[k as int].0]) <= moment(e0[j]));
                            assert(queue_entries(self.queue) == e0.remove(a0[k as int].0));
                            assert(e0.dom().contains(item));
                            assert(old(self).waiting() == a0 && old(self).moments() == e0);
                            assert(self.waiting() == a0.remove(k as int));
                        }
                        Some(action)
                    },
                }
            },
        }
    }

    /// Takes the action due first, where its moment has come: the clock is read, and an
    /// action is taken where one is due at that reading or before.
    pub fn pop_ready(&mut self) -> (r: Option<Action>)
        requires
            old(self).wf(),
        ensures
            final(self).wf(),
            final(self).next_id() == old(self).next_id(),
            (exists|i: u64| #[trigger] old(self).moments().dom().contains(i) && moment(old(self).moments()[i])
                <= final(self).clock()) <==> r is Some,
            r is None ==> final(self).moments() == old(self).moments() && final(self).waiting() == old(self).waiting(),
            r matches Some(a) ==> exists|k: int| 0 <= k < old(self).waiting().len() && #[trigger] old(self).waiting()[k].1 == a
                && (forall|j: u64| #[trigger] old(self).moments().dom().contains(j) ==> moment(
                    old(self).moments()[old(self).waiting()[k].0],
                ) <= moment(old(self).moments()[j]))
                && final(self).waiting() == old(self).waiting().remove(k),
    {
        let now = millis_since(&self.start);
        let r = self.pop_ready_at(now);
        let ghost before = *self;
        self.clock = now;
        proof {
            Self::lemma_wf_keeps(before, *self);
        }
        r
    }
}

} // verus!

verus! {

/// Waiting actions come out in the order of their moments: once the earliest is taken,
/// every action left is due no sooner than it was.
pub proof fn taken_in_order(m: Map<u64, u64>, i: u64, j: u64)
    requires
        m.dom().contains(i),
        forall|x: u64| #[trigger] m.dom().contains(x) ==> moment(m[i]) <= moment(m[x]),
        m.remove(i).dom().contains(j),
    ensures
        moment(m[i]) <= moment(m.remove(i)[j]),
{
    assert(m.dom().contains(j));
}

} // verus!

verus! {

/// An action sent `d` ms after a clock reading is due at that reading plus `d`: a reading
/// before then does not find it due, and a reading from then on does.
pub proof fn due_after_its_delay(m: Map<u64, u64>, id: u64, sent: u64, d: u64, now: u64)
    requires
        sent + d <= u64::MAX,
    ensures
        with_moment(m, id, (sent + d) as u64).dom().contains(id),
        moment(with_moment(m, id, (sent + d) as u64)[id]) == sent + d,
        moment(with_moment(m, id, (sent + d) as u64)[id]) <= now <==> sent + d <= now,
{
}

} // verus!
