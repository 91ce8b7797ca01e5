use usr_orders::Engine;
use usr_orders::Money;
use usr_orders::OrderError;
use usr_orders::PendingOrder;
use usr_orders::ChangeOrder;
use usr_orders::UpdateOrder;
use usr_orders::Status;
use usr_orders::Team;

fn widget(count: u32, unit_cost: Money) -> PendingOrder {
    PendingOrder {
        name: String::from("Widget"),
        count,
        unit_cost,
        store_in: String::from("Shelf A"),
        team: Team::Eng,
        reason: String::from("prototype"),
        vendor: String::from("Acme"),
        link: String::from("https://acme.example/widget"),
    }
}

#[test]
fn create_assigns_id_one_and_new_status() {
    let mut e = Engine::new(true, true);
    let id = e.new_order(widget(10, Money::new(250, 2)), 100);
    assert_eq!(id, 1);
    let cur = e.current(1).unwrap();
    assert_eq!(cur.instance_id, 1);
    assert_eq!(cur.status, Status::New);
    assert_eq!(cur.date, 100);
    let (orders, events) = e.get_orders();
    assert_eq!(orders.len(), 1);
    assert_eq!(events.len(), 1);
    assert_eq!(orders[0].id, 1);
    assert_eq!(orders[0].name, "Widget");
    assert_eq!(orders[0].ref_number, None);
    assert!(e.backup_pending);
}

#[test]
fn create_notification_has_exact_subtotal() {
    let mut e = Engine::new(true, true);
    e.new_order(widget(10, Money::new(250, 2)), 100);
    assert_eq!(e.lifecycle.queue.len(), 1);
    let n = &e.lifecycle.queue[0];
    assert_eq!(n.order_id, 1);
    assert!(n.message.contains("**Subtotal:** $25.00"));
    assert_eq!(
        n.message,
        "**New Order!**\n**Name:** Widget\n**Vendor:** Acme\n\
         **Link:** https://acme.example/widget\n**Count:** 10\n\
         **Unit Cost:** $2.50\n**Subtotal:** $25.00\n**Team:** Eng\n\
         **Reason:** prototype"
    );
    assert_eq!(e.updates.queue.len(), 0);
}

#[test]
fn create_always_persists_two_rows() {
    let mut e = Engine::new(false, false);
    for i in 0..5u32 {
        let (before_orders, before_events) = {
            let (o, v) = e.get_orders();
            (o.len(), v.len())
        };
        e.new_order(widget(i + 1, Money::new(100, 2)), i as i64);
        let (o, v) = e.get_orders();
        assert_eq!(o.len(), before_orders + 1);
        assert_eq!(v.len(), before_events + 1);
    }
}

#[test]
fn amend_while_new_replaces_fields_and_keeps_ledger() {
    let mut e = Engine::new(true, true);
    e.new_order(widget(10, Money::new(250, 2)), 100);
    let r = e.change_order(ChangeOrder {
        id: 1,
        name: String::from("Widget Pro"),
        count: 4,
        unit_cost: Money::new(999, 2),
        store_in: String::from(""),
        team: Team::Ops,
        reason: String::from("upgrade"),
        vendor: String::from("Acme"),
        link: String::from("https://acme.example/widget-pro"),
    });
    assert_eq!(r, Ok(()));
    let (orders, events) = e.get_orders();
    assert_eq!(orders.len(), 1);
    assert_eq!(orders[0].name, "Widget Pro");
    assert_eq!(orders[0].count, 4);
    assert_eq!(orders[0].team, Team::Ops);
    assert_eq!(events.len(), 1);
    let cur = e.current(1).unwrap();
    assert_eq!(cur.status, Status::New);
    assert_eq!(cur.instance_id, 1);
    // lifecycle notification emitted for the amendment
    assert_eq!(e.lifecycle.queue.len(), 2);
    assert!(e.lifecycle.queue[1].message.starts_with("***Order Changed***"));
    assert!(e.lifecycle.queue[1].message.contains("**Subtotal:** $39.96"));
}

#[test]
fn amend_after_advance_conflicts_without_mutation() {
    let mut e = Engine::new(true, true);
    e.new_order(widget(10, Money::new(250, 2)), 100);
    e.update_order(UpdateOrder { id: 1, status: Status::Ordered, ref_number: None }, 101).unwrap();
    let queued_before = e.lifecycle.queue.len();
    let r = e.change_order(ChangeOrder {
        id: 1,
        name: String::from("Too late"),
        count: 1,
        unit_cost: Money::new(1, 0),
        store_in: String::from(""),
        team: Team::Eng,
        reason: String::from("r"),
        vendor: String::from("v"),
        link: String::from("l"),
    });
    assert_eq!(r, Err(OrderError::AlreadyProcessed));
    assert_eq!(OrderError::AlreadyProcessed.message(), "Order has already been processed");
    let (orders, _) = e.get_orders();
    assert_eq!(orders[0].name, "Widget");
    assert_eq!(e.lifecycle.queue.len(), queued_before);
}

#[test]
fn amend_unknown_order_is_not_found() {
    let mut e = Engine::new(true, true);
    let r = e.change_order(ChangeOrder {
        id: 7,
        name: String::from("x"),
        count: 1,
        unit_cost: Money::new(1, 0),
        store_in: String::from(""),
        team: Team::Eng,
        reason: String::from("r"),
        vendor: String::from("v"),
        link: String::from("l"),
    });
    assert_eq!(r, Err(OrderError::NotFound));
    assert_eq!(OrderError::NotFound.message(), "Order not found");
}

#[test]
fn advance_appends_event_with_next_instance_id() {
    let mut e = Engine::new(true, true);
    e.new_order(widget(10, Money::new(250, 2)), 100);
    let r = e.update_order(UpdateOrder { id: 1, status: Status::Ordered, ref_number: None }, 200);
    assert_eq!(r, Ok(()));
    let cur = e.current(1).unwrap();
    assert_eq!(cur.instance_id, 2);
    assert_eq!(cur.status, Status::Ordered);
    assert_eq!(cur.date, 200);
    assert_eq!(e.updates.queue.len(), 1);
    assert_eq!(
        e.updates.queue[0].message,
        "**Order Update!**\n**Name:** Widget\n**Team:** Eng\n**Status:** Ordered"
    );
    // ref_number was not supplied, so the row keeps none
    let (orders, _) = e.get_orders();
    assert_eq!(orders[0].ref_number, None);
}

#[test]
fn same_status_amend_sets_ref_number_without_event_or_notification() {
    let mut e = Engine::new(true, true);
    e.new_order(widget(10, Money::new(250, 2)), 100);
    e.update_order(UpdateOrder { id: 1, status: Status::Ordered, ref_number: None }, 200).unwrap();
    let status_msgs_before = e.updates.queue.len();
    let r = e.update_order(
        UpdateOrder { id: 1, status: Status::Ordered, ref_number: Some(555) },
        300,
    );
    assert_eq!(r, Ok(()));
    let (orders, events) = e.get_orders();
    assert_eq!(orders[0].ref_number, Some(555));
    assert_eq!(events.len(), 2);
    assert_eq!(e.current(1).unwrap().instance_id, 2);
    assert_eq!(e.updates.queue.len(), status_msgs_before);
}

#[test]
fn same_status_without_ref_number_conflicts() {
    let mut e = Engine::new(true, true);
    e.new_order(widget(10, Money::new(250, 2)), 100);
    let r = e.update_order(UpdateOrder { id: 1, status: Status::New, ref_number: None }, 200);
    assert_eq!(r, Err(OrderError::AlreadyInThatState));
    assert_eq!(OrderError::AlreadyInThatState.message(), "Order is already in that state");
    let (_, events) = e.get_orders();
    assert_eq!(events.len(), 1);
}

#[test]
fn storage_is_terminal() {
    let mut e = Engine::new(true, true);
    let mut p = widget(10, Money::new(250, 2));
    p.store_in = String::from("");
    e.new_order(p, 100);
    let r = e.update_order(UpdateOrder { id: 1, status: Status::InStorage, ref_number: None }, 200);
    assert_eq!(r, Ok(()));
    assert_eq!(
        e.updates.queue[0].message,
        "**Order Complete!**\n**Name:** Widget\n**Team:** Eng"
    );
    let r = e.update_order(UpdateOrder { id: 1, status: Status::Ordered, ref_number: None }, 300);
    assert_eq!(r, Err(OrderError::AlreadyInStorage));
    assert_eq!(OrderError::AlreadyInStorage.message(), "Order is already in storage");
    let r = e.update_order(
        UpdateOrder { id: 1, status: Status::InStorage, ref_number: Some(9) },
        300,
    );
    assert_eq!(r, Err(OrderError::AlreadyInStorage));
    assert_eq!(e.current(1).unwrap().instance_id, 2);
}

#[test]
fn completion_notification_includes_location_when_designated() {
    let mut e = Engine::new(true, true);
    e.new_order(widget(10, Money::new(250, 2)), 100);
    e.update_order(UpdateOrder { id: 1, status: Status::InStorage, ref_number: None }, 200)
        .unwrap();
    assert_eq!(
        e.updates.queue[0].message,
        "**Order Complete!**\n**Name:** Widget\n**Team:** Eng\n**Location:** Shelf A"
    );
}

#[test]
fn plain_cancel_requires_new_status() {
    let mut e = Engine::new(true, true);
    e.new_order(widget(1, Money::new(100, 2)), 100);
    e.new_order(widget(2, Money::new(100, 2)), 101);
    e.update_order(UpdateOrder { id: 2, status: Status::Ordered, ref_number: None }, 102).unwrap();
    let r = e.cancel_order(2, false);
    assert_eq!(r, Err(OrderError::AlreadyProcessed));
    let (orders, events) = e.get_orders();
    assert_eq!(orders.len(), 2);
    assert_eq!(events.len(), 3);
}

#[test]
fn plain_cancel_removes_row_and_keeps_history() {
    let mut e = Engine::new(true, true);
    e.new_order(widget(3, Money::new(100, 2)), 100);
    let r = e.cancel_order(1, false);
    assert_eq!(r, Ok(()));
    let (orders, events) = e.get_orders();
    assert_eq!(orders.len(), 0);
    assert_eq!(events.len(), 1);
    assert_eq!(
        e.lifecycle.queue[1].message,
        "***Order Cancelled***\n**Name:** Widget\n**Count:** 3\n**Team:** Eng"
    );
}

#[test]
fn force_cancel_removes_row_and_all_events() {
    let mut e = Engine::new(true, true);
    e.new_order(widget(1, Money::new(100, 2)), 100);
    e.new_order(widget(2, Money::new(100, 2)), 101);
    e.update_order(UpdateOrder { id: 2, status: Status::Ordered, ref_number: None }, 102).unwrap();
    e.update_order(UpdateOrder { id: 2, status: Status::Shipped, ref_number: None }, 103).unwrap();
    let r = e.cancel_order(2, true);
    assert_eq!(r, Ok(()));
    let (orders, events) = e.get_orders();
    assert_eq!(orders.len(), 1);
    assert_eq!(orders[0].id, 1);
    assert_eq!(events.len(), 1);
    assert_eq!(events[0].order_id, 1);
    assert_eq!(e.current(2), None);
}

#[test]
fn cancel_unknown_order_is_not_found() {
    let mut e = Engine::new(true, true);
    let r = e.cancel_order(12, true);
    assert_eq!(r, Err(OrderError::NotFound));
}

#[test]
fn unconfigured_channels_drop_notifications() {
    let mut e = Engine::new(false, false);
    e.new_order(widget(10, Money::new(250, 2)), 100);
    e.update_order(UpdateOrder { id: 1, status: Status::Ordered, ref_number: None }, 200).unwrap();
    assert_eq!(e.lifecycle.queue.len(), 0);
    assert_eq!(e.updates.queue.len(), 0);
}

#[test]
fn reset_tables_clears_rows_and_history_and_restarts_ids() {
    let mut e = Engine::new(true, true);
    e.new_order(widget(1, Money::new(100, 2)), 100);
    e.new_order(widget(2, Money::new(100, 2)), 101);
    e.reset_tables();
    let (orders, events) = e.get_orders();
    assert_eq!(orders.len(), 0);
    assert_eq!(events.len(), 0);
    let id = e.new_order(widget(3, Money::new(100, 2)), 102);
    assert_eq!(id, 1);
}

#[test]
fn current_returns_event_with_greatest_instance_id() {
    let mut e = Engine::new(false, false);
    e.new_order(widget(1, Money::new(100, 2)), 100);
    e.new_order(widget(2, Money::new(100, 2)), 101);
    e.update_order(UpdateOrder { id: 1, status: Status::Ordered, ref_number: None }, 102).unwrap();
    e.update_order(UpdateOrder { id: 2, status: Status::Shipped, ref_number: None }, 103).unwrap();
    e.update_order(UpdateOrder { id: 1, status: Status::Shipped, ref_number: None }, 104).unwrap();
    let c1 = e.current(1).unwrap();
    let c2 = e.current(2).unwrap();
    assert_eq!((c1.instance_id, c1.status), (3, Status::Shipped));
    assert_eq!((c2.instance_id, c2.status), (2, Status::Shipped));
    let (_, events) = e.get_orders();
    for ev in events.iter() {
        if ev.order_id == 1 && ev.instance_id != c1.instance_id {
            assert!(ev.instance_id < c1.instance_id);
        }
    }
}
