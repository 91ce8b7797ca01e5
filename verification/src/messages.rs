//! The human-readable notification texts, defined exactly.
//!
//! Each spec function is the full text of one notification; the exec
//! builders are proved to produce exactly that text, subtotal included.

use vstd::prelude::*;
use vstd::string::StringExecFns;
use crate::money::Money;
use crate::numeral::dec_str;
use crate::numeral::money_str;
use crate::numeral::push_dec;
use crate::numeral::push_money;
use crate::records::Order;
use crate::requests::ChangeOrder;
use crate::requests::PendingOrder;
use crate::status::Status;
use crate::status::Team;

verus! {

/// The field lines shared by the creation and amendment texts. The
/// subtotal line renders `count * unit_cost` exactly, at the unit
/// cost's own scale.
pub open spec fn details_msg(
    name: Seq<char>,
    vendor: Seq<char>,
    link: Seq<char>,
    count: u32,
    cost: Money,
    team: Team,
    reason: Seq<char>,
) -> Seq<char> {
    "**Name:** "@ + name + "\n**Vendor:** "@ + vendor + "\n**Link:** "@ + link
        + "\n**Count:** "@ + dec_str(count as nat) + "\n**Unit Cost:** $"@ + money_str(
        cost.mantissa as nat,
        cost.scale as nat,
    ) + "\n**Subtotal:** $"@ + money_str(
        (count * cost.mantissa) as nat,
        cost.scale as nat,
    ) + "\n**Team:** "@ + team.label_spec() + "\n**Reason:** "@ + reason
}

/// Lifecycle text announcing a created order.
pub open spec fn new_order_msg(p: PendingOrder) -> Seq<char> {
    "**New Order!**\n"@ + details_msg(
        p.name@,
        p.vendor@,
        p.link@,
        p.count,
        p.unit_cost,
        p.team,
        p.reason@,
    )
}

/// Lifecycle text announcing an amended order.
pub open spec fn change_order_msg(c: ChangeOrder) -> Seq<char> {
    "***Order Changed***\n"@ + details_msg(
        c.name@,
        c.vendor@,
        c.link@,
        c.count,
        c.unit_cost,
        c.team,
        c.reason@,
    )
}

/// Lifecycle text announcing a cancelled order, from its row.
pub open spec fn cancel_order_msg(o: Order) -> Seq<char> {
    "***Order Cancelled***\n**Name:** "@ + o.name@ + "\n**Count:** "@ + dec_str(
        o.count as nat,
    ) + "\n**Team:** "@ + o.team.label_spec()
}

/// Status text announcing an advance of the order's row to `target`.
/// Advancing to the terminal status completes the order; its location
/// line is omitted when no storage location was designated.
pub open spec fn update_order_msg(o: Order, target: Status) -> Seq<char> {
    if target == Status::InStorage {
        if o.store_in@.len() == 0 {
            "**Order Complete!**\n**Name:** "@ + o.name@ + "\n**Team:** "@ + o.team.label_spec()
        } else {
            "**Order Complete!**\n**Name:** "@ + o.name@ + "\n**Team:** "@ + o.team.label_spec()
                + "\n**Location:** "@ + o.store_in@
        }
    } else {
        "**Order Update!**\n**Name:** "@ + o.name@ + "\n**Team:** "@ + o.team.label_spec()
            + "\n**Status:** "@ + target.label_spec()
    }
}

fn push_details(
    s: &mut String,
    name: &str,
    vendor: &str,
    link: &str,
    count: u32,
    cost: Money,
    team: Team,
    reason: &str,
)
    requires
        cost.inv(),
    ensures
        final(s)@ == old(s)@ + details_msg(name@, vendor@, link@, count, cost, team, reason@),
{
    s.append("**Name:** ");
    s.append(name);
    s.append("\n**Vendor:** ");
    s.append(vendor);
    s.append("\n**Link:** ");
    s.append(link);
    s.append("\n**Count:** ");
    push_dec(count as u128, s);
    s.append("\n**Unit Cost:** $");
    push_money(cost.mantissa as u128, cost.scale, s);
    s.append("\n**Subtotal:** $");
    let sub = cost.subtotal_mantissa(count);
    push_money(sub, cost.scale, s);
    s.append("\n**Team:** ");
    s.append(team.label());
    s.append("\n**Reason:** ");
    s.append(reason);
    proof {
        assert(s@ =~= old(s)@ + details_msg(name@, vendor@, link@, count, cost, team, reason@));
    }
}

/// Builds the creation notification text.
pub fn build_new_order_msg(p: &PendingOrder) -> (r: String)
    requires
        p.unit_cost.inv(),
    ensures
        r@ == new_order_msg(*p),
{
    let mut s = String::new();
    s.append("**New Order!**\n");
    push_details(
        &mut s,
        p.name.as_str(),
        p.vendor.as_str(),
        p.link.as_str(),
        p.count,
        p.unit_cost,
        p.team,
        p.reason.as_str(),
    );
    proof {
        assert(s@ =~= new_order_msg(*p));
    }
    s
}

/// Builds the amendment notification text.
pub fn build_change_order_msg(c: &ChangeOrder) -> (r: String)
    requires
        c.unit_cost.inv(),
    ensures
        r@ == change_order_msg(*c),
{
    let mut s = String::new();
    s.append("***Order Changed***\n");
    push_details(
        &mut s,
        c.name.as_str(),
        c.vendor.as_str(),
        c.link.as_str(),
        c.count,
        c.unit_cost,
        c.team,
        c.reason.as_str(),
    );
    proof {
        assert(s@ =~= change_order_msg(*c));
    }
    s
}

/// Builds the cancellation notification text.
pub fn build_cancel_order_msg(o: &Order) -> (r: String)
    ensures
        r@ == cancel_order_msg(*o),
{
    let mut s = String::new();
    s.append("***Order Cancelled***\n**Name:** ");
    s.append(o.name.as_str());
    s.append("\n**Count:** ");
    push_dec(o.count as u128, &mut s);
    s.append("\n**Team:** ");
    s.append(o.team.label());
    proof {
        assert(s@ =~= cancel_order_msg(*o));
    }
    s
}

/// Builds the status-advance notification text.
pub fn build_update_order_msg(o: &Order, target: Status) -> (r: String)
    ensures
        r@ == update_order_msg(*o, target),
{
    let mut s = String::new();
    if matches!(target, Status::InStorage) {
        s.append("**Order Complete!**\n**Name:** ");
        s.append(o.name.as_str());
        s.append("\n**Team:** ");
        s.append(o.team.label());
        if !o.store_in.as_str().is_empty() {
            s.append("\n**Location:** ");
            s.append(o.store_in.as_str());
        }
    } else {
        s.append("**Order Update!**\n**Name:** ");
        s.append(o.name.as_str());
        s.append("\n**Team:** ");
        s.append(o.team.label());
        s.append("\n**Status:** ");
        s.append(target.label());
    }
    proof {
        assert(s@ =~= update_order_msg(*o, target));
    }
    s
}

} // verus!
