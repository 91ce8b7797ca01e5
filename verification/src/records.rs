//! The order rows: one mutable record per purchase request.

use vstd::prelude::*;
use crate::money::Money;
use crate::requests::ChangeOrder;
use crate::requests::PendingOrder;
use crate::requests::amended_order;
use crate::requests::created_order;
use crate::requests::with_ref_number;
use crate::status::Team;

verus! {

/// One purchase request: an immutable id, freely describable fields,
/// and an optional external reference number assigned post-transition.
pub struct Order {
    pub id: u32,
    pub name: String,
    pub count: u32,
    pub unit_cost: Money,
    /// Designated storage location; the empty string means none.
    pub store_in: String,
    pub team: Team,
    pub reason: String,
    pub vendor: String,
    pub link: String,
    pub ref_number: Option<u32>,
}

/// Whether some row carries `id`.
pub open spec fn has_order(s: Seq<Order>, id: u32) -> bool {
    exists|i: int| 0 <= i < s.len() && (#[trigger] s[i]).id == id
}

/// The index of the row carrying `id`; meaningful only under
/// `has_order` and unique row ids.
pub open spec fn order_index(s: Seq<Order>, id: u32) -> int {
    choose|i: int| 0 <= i < s.len() && (#[trigger] s[i]).id == id
}

/// The store of order rows. Ids are assigned from a counter, so every
/// row id is below `next_id` and no id is ever reused.
pub struct OrderRecords {
    pub orders: Vec<Order>,
    pub next_id: u32,
}

impl OrderRecords {
    pub open spec fn wf(self) -> bool {
        &&& forall|i: int, j: int|
            0 <= i < self.orders@.len() && 0 <= j < self.orders@.len() && i != j
                ==> self.orders@[i].id != self.orders@[j].id
        &&& forall|i: int|
            0 <= i < self.orders@.len() ==> 1 <= (#[trigger] self.orders@[i]).id
                < self.next_id
        &&& forall|i: int|
            0 <= i < self.orders@.len() ==> (#[trigger] self.orders@[i]).unit_cost.inv()
        &&& self.next_id >= 1
    }

    pub fn new() -> (r: OrderRecords)
        ensures
            r.wf(),
            r.orders@ == Seq::<Order>::empty(),
            r.next_id == 1,
    {
        let r = OrderRecords { orders: Vec::new(), next_id: 1 };
        proof {
            assert(r.orders@ =~= Seq::<Order>::empty());
        }
        r
    }

    /// The index of the row carrying `id`, if any.
    fn position(&self, id: u32) -> (r: Option<usize>)
        requires
            self.wf(),
        ensures
            (match r {
                Some(k) => k < self.orders@.len() && self.orders@[k as int].id == id && k
                    == order_index(self.orders@, id) && has_order(self.orders@, id),
                None => !has_order(self.orders@, id),
            }),
    {
        let n = self.orders.len();
        let mut k: usize = 0;
        while k < n
            invariant
                k <= n,
                n == self.orders@.len(),
                self.wf(),
                forall|j: int| 0 <= j < k ==> (#[trigger] self.orders@[j]).id != id,
            decreases n - k,
        {
            if self.orders[k].id == id {
                proof {
                    let w = order_index(self.orders@, id);
                    assert(self.orders@[k as int].id == id);
                    assert(0 <= w < self.orders@.len() && self.orders@[w].id == id);
                    assert(w == k as int);
                }
                return Some(k);
            }
            k = k + 1;
        }
        None
    }

    /// Inserts a fresh row under the next id and returns that id.
    pub fn insert(&mut self, p: PendingOrder) -> (id: u32)
        requires
            old(self).wf(),
            old(self).next_id < u32::MAX,
            p.unit_cost.inv(),
        ensures
            final(self).wf(),
            id == old(self).next_id,
            final(self).next_id == id + 1,
            final(self).orders@ == old(self).orders@.push(created_order(id, p)),
    {
        let id = self.next_id;
        let row = Order {
            id,
            name: p.name,
            count: p.count,
            unit_cost: p.unit_cost,
            store_in: p.store_in,
            team: p.team,
            reason: p.reason,
            vendor: p.vendor,
            link: p.link,
            ref_number: None,
        };
        self.orders.push(row);
        self.next_id = id + 1;
        id
    }

    /// The row carrying `id`, if any.
    pub fn find(&self, id: u32) -> (r: Option<&Order>)
        requires
            self.wf(),
        ensures
            (match r {
                Some(o) => has_order(self.orders@, id) && *o == self.orders@[order_index(
                    self.orders@,
                    id,
                )],
                None => !has_order(self.orders@, id),
            }),
    {
        match self.position(id) {
            Some(k) => Some(&self.orders[k]),
            None => None,
        }
    }

    /// Replaces every descriptive field of the row carrying `c.id`,
    /// keeping its reference number; reports whether the row existed.
    pub fn replace_fields(&mut self, c: ChangeOrder) -> (r: bool)
        requires
            old(self).wf(),
            c.unit_cost.inv(),
        ensures
            final(self).wf(),
            r == has_order(old(self).orders@, c.id),
            final(self).next_id == old(self).next_id,
            (if r {
                final(self).orders@ == old(self).orders@.update(
                    order_index(old(self).orders@, c.id),
                    amended_order(old(self).orders@[order_index(old(self).orders@, c.id)], c),
                )
            } else {
                final(self).orders@ == old(self).orders@
            }),
    {
        match self.position(c.id) {
            Some(k) => {
                let prev_ref = self.orders[k].ref_number;
                let prev_id = self.orders[k].id;
                self.orders[k] = Order {
                    id: prev_id,
                    name: c.name,
                    count: c.count,
                    unit_cost: c.unit_cost,
                    store_in: c.store_in,
                    team: c.team,
                    reason: c.reason,
                    vendor: c.vendor,
                    link: c.link,
                    ref_number: prev_ref,
                };
                true
            },
            None => false,
        }
    }

    /// Sets only the reference number of the row carrying `id`;
    /// reports whether the row existed.
    pub fn set_ref_number(&mut self, id: u32, ref_number: Option<u32>) -> (r: bool)
        requires
            old(self).wf(),
        ensures
            final(self).wf(),
            r == has_order(old(self).orders@, id),
            final(self).next_id == old(self).next_id,
            (if r {
                final(self).orders@ == old(self).orders@.update(
                    order_index(old(self).orders@, id),
                    with_ref_number(old(self).orders@[order_index(old(self).orders@, id)], ref_number),
                )
            } else {
                final(self).orders@ == old(self).orders@
            }),
    {
        match self.position(id) {
            Some(k) => {
                self.orders[k].ref_number = ref_number;
                true
            },
            None => false,
        }
    }

    /// Every order row.
    pub fn list_all(&self) -> (r: &Vec<Order>)
        ensures
            r@ == self.orders@,
    {
        &self.orders
    }

    /// Removes the row carrying `id`; reports whether it existed.
    pub fn delete(&mut self, id: u32) -> (r: bool)
        requires
            old(self).wf(),
        ensures
            final(self).wf(),
            r == has_order(old(self).orders@, id),
            final(self).next_id == old(self).next_id,
            (if r {
                final(self).orders@ == old(self).orders@.remove(order_index(old(self).orders@, id))
            } else {
                final(self).orders@ == old(self).orders@
            }),
    {
        match self.position(id) {
            Some(k) => {
                self.orders.remove(k);
                true
            },
            None => false,
        }
    }
}

} // verus!
