//! Order lifecycle tracking for a small purchasing workflow.
//!
//! An order carries descriptive fields and an append-only history of
//! status events; the event with the greatest per-order instance id is
//! the order's current status. Every mutation is validated against that
//! current status, applied atomically to the in-memory store, and
//! followed by a best-effort notification and a backup request.

pub mod engine;
pub mod ledger;
pub mod messages;
pub mod money;
pub mod notify;
pub mod numeral;
pub mod parse;
pub mod records;
pub mod requests;
pub mod status;

pub use engine::Engine;
pub use ledger::StatusEvent;
pub use money::Money;
pub use records::Order;
pub use requests::ChangeOrder;
pub use requests::OrderError;
pub use requests::PendingOrder;
pub use requests::UpdateOrder;
pub use status::Status;
pub use status::Team;
