use usr_orders::Money;
use usr_orders::Status;
use usr_orders::Team;
use usr_orders::parse::parse_decimal;

#[test]
fn render_keeps_the_scale() {
    assert_eq!(Money::new(250, 2).render(), "2.50");
    assert_eq!(Money::new(25, 1).render(), "2.5");
    assert_eq!(Money::new(25, 0).render(), "25");
    assert_eq!(Money::new(0, 2).render(), "0.00");
    assert_eq!(Money::new(5, 3).render(), "0.005");
    assert_eq!(Money::new(1009, 2).render(), "10.09");
}

#[test]
fn subtotal_is_exact() {
    assert_eq!(Money::new(250, 2).render_subtotal(10), "25.00");
    assert_eq!(Money::new(999, 2).render_subtotal(3), "29.97");
    assert_eq!(Money::new(1, 1).render_subtotal(3), "0.3");
    assert_eq!(Money::new(0, 0).render_subtotal(1000), "0");
    // a product that leaves u64 but fits the widened mantissa
    assert_eq!(
        Money::new(u64::MAX, 0).render_subtotal(2),
        "36893488147419103230"
    );
}

#[test]
fn parse_accepts_decimal_literals() {
    let m = parse_decimal(b"2.50").unwrap();
    assert_eq!((m.mantissa, m.scale), (250, 2));
    let m = parse_decimal(b"25").unwrap();
    assert_eq!((m.mantissa, m.scale), (25, 0));
    let m = parse_decimal(b"0.005").unwrap();
    assert_eq!((m.mantissa, m.scale), (5, 3));
    let m = parse_decimal(b"18446744073709551615").unwrap();
    assert_eq!((m.mantissa, m.scale), (u64::MAX, 0));
}

#[test]
fn parse_round_trips_through_render() {
    for text in ["2.50", "0.07", "123.456", "9", "10.09"] {
        let m = parse_decimal(text.as_bytes()).unwrap();
        assert_eq!(m.render(), text);
    }
}

#[test]
fn parse_rejects_malformed_text() {
    assert_eq!(parse_decimal(b""), None);
    assert_eq!(parse_decimal(b"."), None);
    assert_eq!(parse_decimal(b"2."), None);
    assert_eq!(parse_decimal(b".5"), None);
    assert_eq!(parse_decimal(b"2.5.0"), None);
    assert_eq!(parse_decimal(b"2x5"), None);
    assert_eq!(parse_decimal(b"-2.5"), None);
    assert_eq!(parse_decimal(b"1e3"), None);
    // mantissa one past the largest representable value
    assert_eq!(parse_decimal(b"18446744073709551616"), None);
    // scale past the supported maximum of 28
    assert_eq!(parse_decimal(b"1.00000000000000000000000000000"), None);
}

#[test]
fn labels_are_stable() {
    assert_eq!(Status::New.label(), "New");
    assert_eq!(Status::Ordered.label(), "Ordered");
    assert_eq!(Status::Shipped.label(), "Shipped");
    assert_eq!(Status::InStorage.label(), "In Storage");
    assert_eq!(Team::Eng.label(), "Eng");
    assert_eq!(Team::Ops.label(), "Ops");
    assert_eq!(Team::Admin.label(), "Admin");
}
