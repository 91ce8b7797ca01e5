//! Request payloads of the lifecycle operations, and their errors.

use vstd::prelude::*;
use crate::money::Money;
use crate::records::Order;
use crate::status::Status;
use crate::status::Team;

verus! {

/// Fields of an order to be created.
pub struct PendingOrder {
    pub name: String,
    pub count: u32,
    pub unit_cost: Money,
    pub store_in: String,
    pub team: Team,
    pub reason: String,
    pub vendor: String,
    pub link: String,
}

/// Replacement descriptive fields for an existing order.
pub struct ChangeOrder {
    pub id: u32,
    pub name: String,
    pub count: u32,
    pub unit_cost: Money,
    pub store_in: String,
    pub team: Team,
    pub reason: String,
    pub vendor: String,
    pub link: String,
}

/// A status advance, optionally carrying an external reference number.
#[derive(Clone, Copy, PartialEq, Eq, Structural, Debug)]
pub struct UpdateOrder {
    pub id: u32,
    pub status: Status,
    pub ref_number: Option<u32>,
}

/// The order row a fresh creation persists: the pending fields under
/// the assigned id, with no reference number yet.
pub open spec fn created_order(id: u32, p: PendingOrder) -> Order {
    Order {
        id,
        name: p.name,
        count: p.count,
        unit_cost: p.unit_cost,
        store_in: p.store_in,
        team: p.team,
        reason: p.reason,
        vendor: p.vendor,
        link: p.link,
        ref_number: None,
    }
}

/// The order row after an amendment: every descriptive field replaced,
/// id and reference number kept.
pub open spec fn amended_order(prev: Order, c: ChangeOrder) -> Order {
    Order {
        id: prev.id,
        name: c.name,
        count: c.count,
        unit_cost: c.unit_cost,
        store_in: c.store_in,
        team: c.team,
        reason: c.reason,
        vendor: c.vendor,
        link: c.link,
        ref_number: prev.ref_number,
    }
}

/// The order row after its reference number is set.
pub open spec fn with_ref_number(prev: Order, ref_number: Option<u32>) -> Order {
    Order {
        id: prev.id,
        name: prev.name,
        count: prev.count,
        unit_cost: prev.unit_cost,
        store_in: prev.store_in,
        team: prev.team,
        reason: prev.reason,
        vendor: prev.vendor,
        link: prev.link,
        ref_number,
    }
}

/// Why a lifecycle operation was refused. Every refusal leaves the
/// store, the queues and the backup flag untouched.
#[derive(Clone, Copy, PartialEq, Eq, Structural, Debug)]
pub enum OrderError {
    /// The order id has no history (or its row is gone).
    NotFound,
    /// The order's current status is no longer `New`.
    AlreadyProcessed,
    /// The order's current status is the terminal `InStorage`.
    AlreadyInStorage,
    /// The target status equals the current one and no reference
    /// number was supplied.
    AlreadyInThatState,
    /// The underlying row update could not be applied.
    Storage,
}

impl OrderError {
    /// The text reported to the caller.
    pub open spec fn message_spec(self) -> Seq<char> {
        match self {
            OrderError::NotFound => "Order not found"@,
            OrderError::AlreadyProcessed => "Order has already been processed"@,
            OrderError::AlreadyInStorage => "Order is already in storage"@,
            OrderError::AlreadyInThatState => "Order is already in that state"@,
            OrderError::Storage => ""@,
        }
    }

    pub fn message(&self) -> (r: &'static str)
        ensures
            r@ == self.message_spec(),
    {
        match self {
            OrderError::NotFound => "Order not found",
            OrderError::AlreadyProcessed => "Order has already been processed",
            OrderError::AlreadyInStorage => "Order is already in storage",
            OrderError::AlreadyInThatState => "Order is already in that state",
            OrderError::Storage => "",
        }
    }
}

} // verus!
