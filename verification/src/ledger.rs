//! Append-only per-order status history.
//!
//! Every status change is one immutable `StatusEvent`; the event with
//! the greatest `instance_id` for an order is that order's current
//! status. `append` assigns the next instance id, `delete_all` is the
//! force-cancel path that erases one order's whole history.

use vstd::prelude::*;
use crate::status::Status;

verus! {

/// One immutable record of an order's status at a point in time.
#[derive(Clone, Copy, PartialEq, Eq, Structural, Debug)]
pub struct StatusEvent {
    pub order_id: u32,
    /// Unique and strictly increasing per `order_id`, assigned at
    /// insert time starting from 1.
    pub instance_id: u32,
    /// Timestamp of insertion, supplied by the caller.
    pub date: i64,
    pub status: Status,
}

/// The event with the greatest instance id for `id`, if any.
pub open spec fn current_of(s: Seq<StatusEvent>, id: u32) -> Option<StatusEvent>
    decreases s.len(),
{
    if s.len() == 0 {
        None::<StatusEvent>
    } else {
        let rest = current_of(s.drop_last(), id);
        if s.last().order_id != id {
            rest
        } else {
            match rest {
                None => Some(s.last()),
                Some(e) => if s.last().instance_id > e.instance_id {
                    Some(s.last())
                } else {
                    Some(e)
                },
            }
        }
    }
}

/// The instance id `append` will assign next for `id`.
pub open spec fn next_instance_of(s: Seq<StatusEvent>, id: u32) -> u32 {
    match current_of(s, id) {
        None => 1u32,
        Some(e) => (e.instance_id + 1) as u32,
    }
}

/// Events are well formed when no two events of one order share an
/// instance id and every instance id is at least 1.
pub open spec fn events_wf(s: Seq<StatusEvent>) -> bool {
    &&& forall|i: int, j: int|
        0 <= i < s.len() && 0 <= j < s.len() && i != j && s[i].order_id == s[j].order_id
            ==> s[i].instance_id != s[j].instance_id
    &&& forall|i: int| 0 <= i < s.len() ==> #[trigger] s[i].instance_id >= 1
}

/// Whatever `current_of` returns is an event of the sequence, belongs
/// to the asked-for order, and carries its greatest instance id.
pub proof fn lemma_current_of(s: Seq<StatusEvent>, id: u32)
    requires
        current_of(s, id) is Some,
    ensures
        s.contains(current_of(s, id)->Some_0),
        current_of(s, id)->Some_0.order_id == id,
        forall|i: int|
            0 <= i < s.len() && s[i].order_id == id ==> #[trigger] s[i].instance_id
                <= current_of(s, id)->Some_0.instance_id,
    decreases s.len(),
{
    if s.len() > 0 {
        if current_of(s.drop_last(), id) is Some {
            lemma_current_of(s.drop_last(), id);
        }
        let e = current_of(s, id)->Some_0;
        assert forall|i: int| 0 <= i < s.len() && s[i].order_id == id implies #[trigger] s[i].instance_id <= e.instance_id by {
            if i < s.len() - 1 {
                assert(s.drop_last()[i] == s[i]);
                if current_of(s.drop_last(), id) is None {
                    lemma_current_some(s.drop_last(), id);
                }
            }
        }
        if e == s.last() {
            assert(s[s.len() - 1] == e);
        } else {
            assert(s.drop_last().contains(e));
            let w = choose|w: int| 0 <= w < s.drop_last().len() && s.drop_last()[w] == e;
            assert(s[w] == e);
        }
    }
}

/// An order with at least one event has a current status, and it is
/// strictly greatest among that order's events: every other event of
/// the order has a strictly smaller instance id.
pub proof fn lemma_current_is_strictly_greatest(s: Seq<StatusEvent>, id: u32)
    requires
        events_wf(s),
        exists|i: int| 0 <= i < s.len() && (#[trigger] s[i]).order_id == id,
    ensures
        current_of(s, id) is Some,
        s.contains(current_of(s, id)->Some_0),
        current_of(s, id)->Some_0.order_id == id,
        forall|i: int|
            0 <= i < s.len() && (#[trigger] s[i]).order_id == id && s[i] != current_of(s, id)->Some_0
                ==> s[i].instance_id < current_of(s, id)->Some_0.instance_id,
{
    lemma_current_some(s, id);
    lemma_current_of(s, id);
    let e = current_of(s, id)->Some_0;
    let w = choose|w: int| 0 <= w < s.len() && s[w] == e;
    assert forall|i: int|
        0 <= i < s.len() && (#[trigger] s[i]).order_id == id && s[i] != e implies s[i].instance_id < e.instance_id by {
        assert(s[i].instance_id <= e.instance_id);
        if s[i].instance_id == e.instance_id {
            assert(i != w);
        }
    }
}

/// Appending an event with a greater instance id than the order's
/// current one makes it the new current status; the history of every
/// other order is unaffected.
pub proof fn lemma_current_after_push(s: Seq<StatusEvent>, ev: StatusEvent, id: u32)
    ensures
        ev.order_id == id ==> current_of(s.push(ev), id) == (match current_of(s, id) {
            None => Some(ev),
            Some(e) => if ev.instance_id > e.instance_id {
                Some(ev)
            } else {
                Some(e)
            },
        }),
        ev.order_id != id ==> current_of(s.push(ev), id) == current_of(s, id),
{
    assert(s.push(ev).drop_last() =~= s);
    assert(s.push(ev).last() == ev);
}

proof fn lemma_current_some(s: Seq<StatusEvent>, id: u32)
    requires
        exists|i: int| 0 <= i < s.len() && (#[trigger] s[i]).order_id == id,
    ensures
        current_of(s, id) is Some,
    decreases s.len(),
{
    if s.len() > 0 && s.last().order_id != id {
        let i = choose|i: int| 0 <= i < s.len() && (#[trigger] s[i]).order_id == id;
        assert(s.drop_last()[i] == s[i]);
        lemma_current_some(s.drop_last(), id);
    }
}

/// The append-only status history of all orders.
pub struct StatusLedger {
    pub events: Vec<StatusEvent>,
}

impl StatusLedger {
    pub open spec fn wf(self) -> bool {
        events_wf(self.events@)
    }

    pub fn new() -> (r: StatusLedger)
        ensures
            r.wf(),
            r.events@ == Seq::<StatusEvent>::empty(),
    {
        let r = StatusLedger { events: Vec::new() };
        proof {
            assert(r.events@ =~= Seq::<StatusEvent>::empty());
        }
        r
    }

    /// The event with the greatest instance id for `order_id`, or
    /// `None` when the order has no history.
    pub fn current(&self, order_id: u32) -> (r: Option<StatusEvent>)
        ensures
            r == current_of(self.events@, order_id),
    {
        let mut best: Option<StatusEvent> = None;
        let n = self.events.len();
        let mut k: usize = 0;
        while k < n
            invariant
                k <= n,
                n == self.events@.len(),
                best == current_of(self.events@.take(k as int), order_id),
            decreases n - k,
        {
            let e = self.events[k];
            proof {
                assert(self.events@.take(k as int + 1).drop_last() =~= self.events@.take(
                    k as int,
                ));
                assert(self.events@.take(k as int + 1).last() == e);
            }
            if e.order_id == order_id {
                best = match best {
                    None => Some(e),
                    Some(b) => if e.instance_id > b.instance_id {
                        Some(e)
                    } else {
                        Some(b)
                    },
                };
            }
            k = k + 1;
        }
        proof {
            assert(self.events@.take(n as int) =~= self.events@);
        }
        best
    }

    /// Appends the next event for `order_id`, assigning the next
    /// instance id for that order, and returns the assigned id.
    pub fn append(&mut self, order_id: u32, status: Status, date: i64) -> (r: u32)
        requires
            old(self).wf(),
            (match current_of(old(self).events@, order_id) {
                Some(e) => e.instance_id < u32::MAX,
                None => true,
            }),
        ensures
            final(self).wf(),
            r == next_instance_of(old(self).events@, order_id),
            final(self).events@ == old(self).events@.push(
                (StatusEvent { order_id, instance_id: r, date, status }),
            ),
    {
        let instance_id = match self.current(order_id) {
            None => 1,
            Some(e) => e.instance_id + 1,
        };
        let ev = StatusEvent { order_id, instance_id, date, status };
        proof {
            if current_of(self.events@, order_id) is Some {
                lemma_current_of(self.events@, order_id);
            }
            assert(events_wf(self.events@.push(ev))) by {
                let olds = self.events@;
                let s = olds.push(ev);
                assert forall|i: int, j: int|
                    0 <= i < s.len() && 0 <= j < s.len() && i != j && s[i].order_id == s[j].order_id implies s[i].instance_id != s[j].instance_id by {
                    if i < olds.len() && j < olds.len() {
                        assert(s[i] == olds[i] && s[j] == olds[j]);
                    } else if i < olds.len() && j == olds.len() {
                        assert(s[i] == olds[i] && s[j] == ev);
                        if current_of(olds, order_id) is None {
                            lemma_current_some(olds, order_id);
                        }
                    } else if j < olds.len() && i == olds.len() {
                        assert(s[j] == olds[j] && s[i] == ev);
                        if current_of(olds, order_id) is None {
                            lemma_current_some(olds, order_id);
                        }
                    }
                }
            }
        }
        self.events.push(ev);
        instance_id
    }

    /// Removes every event of `order_id`; the force-cancel path.
    pub fn delete_all(&mut self, order_id: u32)
        requires
            old(self).wf(),
        ensures
            final(self).wf(),
            final(self).events@ == old(self).events@.filter(|e: StatusEvent| e.order_id != order_id),
    {
        let ghost pred = |e: StatusEvent| e.order_id != order_id;
        let mut kept: Vec<StatusEvent> = Vec::new();
        let n = self.events.len();
        let mut k: usize = 0;
        proof {
            reveal(Seq::filter);
            assert(kept@ =~= self.events@.take(0).filter(pred));
        }
        while k < n
            invariant
                k <= n,
                n == self.events@.len(),
                pred == (|e: StatusEvent| e.order_id != order_id),
                kept@ == self.events@.take(k as int).filter(pred),
            decreases n - k,
        {
            let e = self.events[k];
            let ghost t1 = self.events@.take(k as int + 1);
            proof {
                reveal(Seq::filter);
                assert(t1.drop_last() =~= self.events@.take(k as int));
                assert(t1.last() == e);
                assert(t1.len() == k + 1);
            }
            if e.order_id != order_id {
                kept.push(e);
            }
            proof {
                reveal(Seq::filter);
                assert(pred(e) == (e.order_id != order_id));
                assert(kept@ == t1.filter(pred));
            }
            k = k + 1;
        }
        proof {
            assert(self.events@.take(n as int) =~= self.events@);
            lemma_filter_keeps_wf(self.events@, pred);
        }
        self.events = kept;
    }
}

/// Filtering an event sequence cannot break well-formedness: the kept
/// events are a subsequence, so per-order instance ids stay distinct.
proof fn lemma_filter_keeps_wf(s: Seq<StatusEvent>, pred: spec_fn(StatusEvent) -> bool)
    requires
        events_wf(s),
    ensures
        events_wf(s.filter(pred)),
    decreases s.len(),
{
    reveal(Seq::filter);
    if s.len() > 0 {
        assert(events_wf(s.drop_last())) by {
            assert(forall|i: int|
                0 <= i < s.len() - 1 ==> s.drop_last()[i] == s[i]);
        }
        lemma_filter_keeps_wf(s.drop_last(), pred);
        lemma_filter_subset(s.drop_last(), pred);
        let f = s.filter(pred);
        let fd = s.drop_last().filter(pred);
        if pred(s.last()) {
            assert(f == fd.push(s.last()));
            assert forall|i: int, j: int|
                0 <= i < f.len() && 0 <= j < f.len() && i != j && f[i].order_id == f[j].order_id implies f[i].instance_id != f[j].instance_id by {
                if i < f.len() - 1 && j == f.len() - 1 {
                    lemma_neq_last(s, fd, i);
                } else if j < f.len() - 1 && i == f.len() - 1 {
                    lemma_neq_last(s, fd, j);
                }
            }
        }
    }
}

/// Helper: an event kept from `s.drop_last()` cannot collide with
/// `s.last()` on (order, instance) when `s` is well formed.
proof fn lemma_neq_last(s: Seq<StatusEvent>, fd: Seq<StatusEvent>, i: int)
    requires
        events_wf(s),
        s.len() > 0,
        0 <= i < fd.len(),
        s.drop_last().contains(fd[i]),
        fd[i].order_id == s.last().order_id,
    ensures
        fd[i].instance_id != s.last().instance_id,
{
    let w = choose|w: int| 0 <= w < s.drop_last().len() && s.drop_last()[w] == fd[i];
    assert(s[w] == fd[i]);
}

/// Every element of a filtered sequence is an element of the source.
pub proof fn lemma_filter_subset(s: Seq<StatusEvent>, pred: spec_fn(StatusEvent) -> bool)
    ensures
        forall|i: int|
            0 <= i < s.filter(pred).len() ==> s.contains(#[trigger] s.filter(pred)[i]),
    decreases s.len(),
{
    reveal(Seq::filter);
    if s.len() > 0 {
        lemma_filter_subset(s.drop_last(), pred);
        let f = s.filter(pred);
        let fd = s.drop_last().filter(pred);
        assert forall|i: int| 0 <= i < f.len() implies s.contains(#[trigger] f[i]) by {
            if i < fd.len() {
                assert(fd[i] == f[i]);
                assert(s.drop_last().contains(fd[i]));
                let w = choose|w: int|
                    0 <= w < s.drop_last().len() && s.drop_last()[w] == fd[i];
                assert(s[w] == f[i]);
            } else {
                assert(f[i] == s.last());
                assert(s[s.len() - 1] == s.last());
            }
        }
    }
}

} // verus!
