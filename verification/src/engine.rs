//! The transition engine: every lifecycle operation, validated against
//! the order's current status and applied atomically.
//!
//! Each operation reads the current status from the ledger, validates,
//! then writes order row and status event together; a refused
//! operation changes nothing at all. On success a notification is
//! queued (best effort, outside the data change) and a backup is
//! requested. An operation holds the engine exclusively, so the
//! read-validate-write sequence of one call can never interleave with
//! another call for the same order.

use vstd::prelude::*;
use crate::ledger::StatusEvent;
use crate::ledger::StatusLedger;
use crate::ledger::current_of;
use crate::ledger::lemma_current_of;
use crate::ledger::lemma_filter_subset;
use crate::messages::build_cancel_order_msg;
use crate::messages::build_change_order_msg;
use crate::messages::build_new_order_msg;
use crate::messages::build_update_order_msg;
use crate::messages::cancel_order_msg;
use crate::messages::change_order_msg;
use crate::messages::new_order_msg;
use crate::messages::update_order_msg;
use crate::notify::Channel;
use crate::notify::queued;
use crate::notify::untouched;
use crate::records::Order;
use crate::records::OrderRecords;
use crate::records::has_order;
use crate::records::order_index;
use crate::requests::ChangeOrder;
use crate::requests::OrderError;
use crate::requests::PendingOrder;
use crate::requests::UpdateOrder;
use crate::requests::amended_order;
use crate::requests::created_order;
use crate::requests::with_ref_number;
use crate::status::Status;

verus! {

/// The whole application state: order rows, status history, the two
/// notification channels, and the pending-backup flag.
pub struct Engine {
    pub records: OrderRecords,
    pub ledger: StatusLedger,
    /// Channel for creation, amendment and cancellation texts.
    pub lifecycle: Channel,
    /// Channel for status-advance texts.
    pub updates: Channel,
    /// Set after every successful mutation; a consumer snapshots the
    /// state and clears it (batching several requests is fine).
    pub backup_pending: bool,
}

/// Nothing observable about the engine changed.
pub open spec fn same_state(pre: Engine, post: Engine) -> bool {
    &&& post.records.orders@ == pre.records.orders@
    &&& post.records.next_id == pre.records.next_id
    &&& post.ledger.events@ == pre.ledger.events@
    &&& untouched(pre.lifecycle, post.lifecycle)
    &&& untouched(pre.updates, post.updates)
    &&& post.backup_pending == pre.backup_pending
}

impl Engine {
    /// Well-formedness: both stores are well formed, and every status
    /// event belongs to an id below the row counter, so a freshly
    /// assigned id can never collide with existing history.
    pub open spec fn wf(self) -> bool {
        &&& self.records.wf()
        &&& self.ledger.wf()
        &&& forall|i: int|
            0 <= i < self.ledger.events@.len() ==> (#[trigger] self.ledger.events@[i]).order_id
                < self.records.next_id
    }

    pub fn new(lifecycle_configured: bool, updates_configured: bool) -> (r: Engine)
        ensures
            r.wf(),
            r.records.orders@ == Seq::<Order>::empty(),
            r.records.next_id == 1,
            r.ledger.events@ == Seq::<StatusEvent>::empty(),
            r.lifecycle.configured == lifecycle_configured,
            r.lifecycle.queue@ == Seq::<crate::notify::Notification>::empty(),
            r.updates.configured == updates_configured,
            r.updates.queue@ == Seq::<crate::notify::Notification>::empty(),
            !r.backup_pending,
    {
        Engine {
            records: OrderRecords::new(),
            ledger: StatusLedger::new(),
            lifecycle: Channel::new(lifecycle_configured),
            updates: Channel::new(updates_configured),
            backup_pending: false,
        }
    }

    /// Drops all rows and all history, restarting id assignment; the
    /// queues and the backup flag are left alone.
    pub fn reset_tables(&mut self)
        ensures
            final(self).wf(),
            final(self).records.orders@ == Seq::<Order>::empty(),
            final(self).records.next_id == 1,
            final(self).ledger.events@ == Seq::<StatusEvent>::empty(),
            untouched(old(self).lifecycle, final(self).lifecycle),
            untouched(old(self).updates, final(self).updates),
            final(self).backup_pending == old(self).backup_pending,
    {
        self.records = OrderRecords::new();
        self.ledger = StatusLedger::new();
    }

    /// The current status event of `order_id`: the one with the
    /// greatest instance id, or `None` for an order with no history.
    pub fn current(&self, order_id: u32) -> (r: Option<StatusEvent>)
        ensures
            r == current_of(self.ledger.events@, order_id),
    {
        self.ledger.current(order_id)
    }

    /// All order rows and all status events.
    pub fn get_orders(&self) -> (r: (&Vec<Order>, &Vec<StatusEvent>))
        ensures
            r.0@ == self.records.orders@,
            r.1@ == self.ledger.events@,
    {
        (self.records.list_all(), &self.ledger.events)
    }

    /// Creates an order: inserts its row and its initial `New` status
    /// event (instance id 1) together — exactly two new rows, never
    /// one. Always allowed; returns the assigned id.
    pub fn new_order(&mut self, p: PendingOrder, date: i64) -> (id: u32)
        requires
            old(self).wf(),
            old(self).records.next_id < u32::MAX,
            p.unit_cost.inv(),
        ensures
            final(self).wf(),
            id == old(self).records.next_id,
            final(self).records.next_id == id + 1,
            final(self).records.orders@ == old(self).records.orders@.push(created_order(id, p)),
            final(self).ledger.events@ == old(self).ledger.events@.push(
                (StatusEvent { order_id: id, instance_id: 1, date, status: Status::New }),
            ),
            queued(old(self).lifecycle, final(self).lifecycle, id, new_order_msg(p)),
            untouched(old(self).updates, final(self).updates),
            final(self).backup_pending,
    {
        let msg = build_new_order_msg(&p);
        let id = self.records.insert(p);
        proof {
            if current_of(self.ledger.events@, id) is Some {
                lemma_current_of(self.ledger.events@, id);
                let e = current_of(self.ledger.events@, id)->Some_0;
                let w = choose|w: int|
                    0 <= w < self.ledger.events@.len() && self.ledger.events@[w] == e;
                assert(self.ledger.events@[w].order_id < id);
            }
        }
        let _instance = self.ledger.append(id, Status::New, date);
        self.lifecycle.enqueue(id, msg);
        self.backup_pending = true;
        id
    }

    /// Amends an order: replaces every descriptive field of its row,
    /// keeping id and reference number; legal only while the current
    /// status is `New`, and the history is never touched. Succeeds
    /// exactly when the current status is `New` and the row still
    /// exists; any refusal changes nothing.
    pub fn change_order(&mut self, c: ChangeOrder) -> (r: Result<(), OrderError>)
        requires
            old(self).wf(),
            c.unit_cost.inv(),
        ensures
            final(self).wf(),
            (match current_of(old(self).ledger.events@, c.id) {
                None => r == Err::<(), OrderError>(OrderError::NotFound),
                Some(e) => {
                    if e.status != Status::New {
                        r == Err::<(), OrderError>(OrderError::AlreadyProcessed)
                    } else if has_order(old(self).records.orders@, c.id) {
                        r == Ok::<(), OrderError>(())
                    } else {
                        r == Err::<(), OrderError>(OrderError::Storage)
                    }
                },
            }),
            r is Err ==> same_state(*old(self), *final(self)),
            r is Ok ==> {
                &&& final(self).records.orders@ == old(self).records.orders@.update(
                    order_index(old(self).records.orders@, c.id),
                    amended_order(
                        old(self).records.orders@[order_index(old(self).records.orders@, c.id)],
                        c,
                    ),
                )
                &&& final(self).records.next_id == old(self).records.next_id
                &&& final(self).ledger.events@ == old(self).ledger.events@
                &&& queued(old(self).lifecycle, final(self).lifecycle, c.id, change_order_msg(c))
                &&& untouched(old(self).updates, final(self).updates)
                &&& final(self).backup_pending
            },
    {
        match self.ledger.current(c.id) {
            None => {
                return Err(OrderError::NotFound);
            },
            Some(e) => {
                if e.status != Status::New {
                    return Err(OrderError::AlreadyProcessed);
                }
            },
        }
        let msg = build_change_order_msg(&c);
        let id = c.id;
        if self.records.replace_fields(c) {
            self.lifecycle.enqueue(id, msg);
            self.backup_pending = true;
            Ok(())
        } else {
            Err(OrderError::Storage)
        }
    }

    /// Cancels an order. A plain cancel is legal only while the
    /// current status is `New` and removes the row alone, leaving the
    /// history in place; a force cancel removes the row and every
    /// status event of the order together. Any refusal changes
    /// nothing.
    pub fn cancel_order(&mut self, id: u32, force: bool) -> (r: Result<(), OrderError>)
        requires
            old(self).wf(),
        ensures
            final(self).wf(),
            (match current_of(old(self).ledger.events@, id) {
                None => r == Err::<(), OrderError>(OrderError::NotFound),
                Some(e) => {
                    if !force && e.status != Status::New {
                        r == Err::<(), OrderError>(OrderError::AlreadyProcessed)
                    } else if has_order(old(self).records.orders@, id) {
                        r == Ok::<(), OrderError>(())
                    } else {
                        r == Err::<(), OrderError>(OrderError::NotFound)
                    }
                },
            }),
            r is Err ==> same_state(*old(self), *final(self)),
            r is Ok ==> {
                &&& final(self).records.orders@ == old(self).records.orders@.remove(
                    order_index(old(self).records.orders@, id),
                )
                &&& final(self).records.next_id == old(self).records.next_id
                &&& (if force {
                    final(self).ledger.events@ == old(self).ledger.events@.filter(
                        |e: StatusEvent| e.order_id != id,
                    )
                } else {
                    final(self).ledger.events@ == old(self).ledger.events@
                })
                &&& queued(
                    old(self).lifecycle,
                    final(self).lifecycle,
                    id,
                    cancel_order_msg(
                        old(self).records.orders@[order_index(old(self).records.orders@, id)],
                    ),
                )
                &&& untouched(old(self).updates, final(self).updates)
                &&& final(self).backup_pending
            },
    {
        match self.ledger.current(id) {
            None => {
                return Err(OrderError::NotFound);
            },
            Some(e) => {
                if !force && e.status != Status::New {
                    return Err(OrderError::AlreadyProcessed);
                }
            },
        }
        let msg = match self.records.find(id) {
            Some(row) => build_cancel_order_msg(row),
            None => {
                return Err(OrderError::NotFound);
            },
        };
        let _removed = self.records.delete(id);
        if force {
            self.ledger.delete_all(id);
            proof {
                lemma_filter_subset(old(self).ledger.events@, |e: StatusEvent| e.order_id != id);
            }
        }
        self.lifecycle.enqueue(id, msg);
        self.backup_pending = true;
        Ok(())
    }

    /// Advances an order's status. Refused once the order is in the
    /// terminal `InStorage` status. When the target equals the current
    /// status, a reference number must be supplied and only that
    /// number is updated — no event is appended and no status text is
    /// queued. When the status actually changes, exactly one event
    /// with the next instance id is appended, the reference number is
    /// updated when supplied, and a status text is queued. Any refusal
    /// changes nothing.
    pub fn update_order(&mut self, u: UpdateOrder, date: i64) -> (r: Result<(), OrderError>)
        requires
            old(self).wf(),
            (match current_of(old(self).ledger.events@, u.id) {
                Some(e) => e.instance_id < u32::MAX,
                None => true,
            }),
        ensures
            final(self).wf(),
            (match current_of(old(self).ledger.events@, u.id) {
                None => r == Err::<(), OrderError>(OrderError::NotFound),
                Some(e) => {
                    if e.status == Status::InStorage {
                        r == Err::<(), OrderError>(OrderError::AlreadyInStorage)
                    } else if e.status == u.status && u.ref_number is None {
                        r == Err::<(), OrderError>(OrderError::AlreadyInThatState)
                    } else if has_order(old(self).records.orders@, u.id) {
                        r == Ok::<(), OrderError>(())
                    } else {
                        r == Err::<(), OrderError>(OrderError::NotFound)
                    }
                },
            }),
            r is Err ==> same_state(*old(self), *final(self)),
            r is Ok ==> {
                let e = current_of(old(self).ledger.events@, u.id)->Some_0;
                let idx = order_index(old(self).records.orders@, u.id);
                let row = old(self).records.orders@[idx];
                &&& final(self).records.next_id == old(self).records.next_id
                &&& untouched(old(self).lifecycle, final(self).lifecycle)
                &&& final(self).backup_pending
                &&& (if e.status == u.status {
                    &&& final(self).ledger.events@ == old(self).ledger.events@
                    &&& final(self).records.orders@ == old(self).records.orders@.update(
                        idx,
                        with_ref_number(row, u.ref_number),
                    )
                    &&& untouched(old(self).updates, final(self).updates)
                } else {
                    &&& final(self).ledger.events@ == old(self).ledger.events@.push(
                        (StatusEvent {
                            order_id: u.id,
                            instance_id: (e.instance_id + 1) as u32,
                            date,
                            status: u.status,
                        }),
                    )
                    &&& (if u.ref_number is Some {
                        final(self).records.orders@ == old(self).records.orders@.update(
                            idx,
                            with_ref_number(row, u.ref_number),
                        )
                    } else {
                        final(self).records.orders@ == old(self).records.orders@
                    })
                    &&& queued(
                        old(self).updates,
                        final(self).updates,
                        u.id,
                        update_order_msg(row, u.status),
                    )
                })
            },
    {
        let cur = match self.ledger.current(u.id) {
            None => {
                return Err(OrderError::NotFound);
            },
            Some(e) => e,
        };
        if cur.status == Status::InStorage {
            return Err(OrderError::AlreadyInStorage);
        }
        let same_status = cur.status == u.status;
        if same_status && u.ref_number.is_none() {
            return Err(OrderError::AlreadyInThatState);
        }
        let msg = match self.records.find(u.id) {
            Some(row) => build_update_order_msg(row, u.status),
            None => {
                return Err(OrderError::NotFound);
            },
        };
        if !same_status {
            let _instance = self.ledger.append(u.id, u.status, date);
        }
        if same_status || u.ref_number.is_some() {
            let _updated = self.records.set_ref_number(u.id, u.ref_number);
        }
        if !same_status {
            self.updates.enqueue(u.id, msg);
        }
        self.backup_pending = true;
        Ok(())
    }
}

} // verus!
