//! Lifecycle statuses and requesting teams.

use vstd::prelude::*;

verus! {

/// Lifecycle status of an order. `New` is the initial status and
/// `InStorage` is terminal: once it is current, no further status
/// event may be appended for that order.
#[derive(Clone, Copy, PartialEq, Eq, Structural, Debug)]
pub enum Status {
    New,
    Ordered,
    Shipped,
    InStorage,
}

impl Status {
    /// Human-readable name used in notification text.
    pub open spec fn label_spec(self) -> Seq<char> {
        match self {
            Status::New => "New"@,
            Status::Ordered => "Ordered"@,
            Status::Shipped => "Shipped"@,
            Status::InStorage => "In Storage"@,
        }
    }

    pub fn label(&self) -> (r: &'static str)
        ensures
            r@ == self.label_spec(),
    {
        match self {
            Status::New => "New",
            Status::Ordered => "Ordered",
            Status::Shipped => "Shipped",
            Status::InStorage => "In Storage",
        }
    }
}

/// Team an order is requested for.
#[derive(Clone, Copy, PartialEq, Eq, Structural, Debug)]
pub enum Team {
    Eng,
    Ops,
    Admin,
}

impl Team {
    /// Human-readable name used in notification text.
    pub open spec fn label_spec(self) -> Seq<char> {
        match self {
            Team::Eng => "Eng"@,
            Team::Ops => "Ops"@,
            Team::Admin => "Admin"@,
        }
    }

    pub fn label(&self) -> (r: &'static str)
        ensures
            r@ == self.label_spec(),
    {
        match self {
            Team::Eng => "Eng",
            Team::Ops => "Ops",
            Team::Admin => "Admin",
        }
    }
}

} // verus!
