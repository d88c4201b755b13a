use merco::decimal::Decimal;
use merco::timeframe::Timeframe;

const ALL: [Timeframe; 16] = [
    Timeframe::S1,
    Timeframe::M1,
    Timeframe::M3,
    Timeframe::M5,
    Timeframe::M15,
    Timeframe::M30,
    Timeframe::H1,
    Timeframe::H2,
    Timeframe::H4,
    Timeframe::H6,
    Timeframe::H8,
    Timeframe::H12,
    Timeframe::D1,
    Timeframe::D3,
    Timeframe::W1,
    Timeframe::MN1,
];

#[test]
fn timeframe_round_trip_all() {
    for t in ALL {
        let s = t.render();
        assert_eq!(Timeframe::parse(&s), Some(t));
    }
}

#[test]
fn timeframe_render_tags() {
    assert_eq!(Timeframe::M1.render(), "1m");
    assert_eq!(Timeframe::M15.render(), "15m");
    assert_eq!(Timeframe::MN1.render(), "1M");
    assert_eq!(Timeframe::S1.render(), "1s");
    assert_eq!(Timeframe::W1.render(), "1w");
}

#[test]
fn timeframe_parse_rejects_unknown() {
    assert_eq!(Timeframe::parse(""), None);
    assert_eq!(Timeframe::parse("2m"), None);
    assert_eq!(Timeframe::parse("1 m"), None);
    assert_eq!(Timeframe::parse("1M "), None);
    assert_eq!(Timeframe::parse("60s"), None);
    // the monthly tag is case-sensitive
    assert_eq!(Timeframe::parse("1M"), Some(Timeframe::MN1));
}

#[test]
fn timeframe_durations() {
    assert_eq!(Timeframe::S1.to_ms(), 1_000);
    assert_eq!(Timeframe::M1.to_ms(), 60_000);
    assert_eq!(Timeframe::H1.to_ms(), 3_600_000);
    assert_eq!(Timeframe::D1.to_ms(), 86_400_000);
    assert_eq!(Timeframe::W1.to_ms(), 604_800_000);
    // a month counts as 30 days
    assert_eq!(Timeframe::MN1.to_ms(), 2_592_000_000);
}

#[test]
fn decimal_construction() {
    assert_eq!(Decimal::from_int(1).units, 1_000_000_000);
    assert_eq!(Decimal::new(1, 2).unwrap().units, 10_000_000); // 0.01
    assert_eq!(Decimal::new(25, 1).unwrap().units, 2_500_000_000); // 2.5
    assert_eq!(Decimal::new(5, 10), None); // more digits than carried
}

#[test]
fn decimal_add_sub_exact() {
    let a = Decimal::from_int(10);
    let b = Decimal::new(25, 2).unwrap(); // 0.25
    assert_eq!(a.try_add(b).unwrap(), Decimal::new(1025, 2).unwrap());
    assert_eq!(a.try_sub(b).unwrap(), Decimal::new(975, 2).unwrap());
    assert_eq!(Decimal::from_units(i64::MAX).try_add(Decimal::from_units(1)), None);
}

#[test]
fn decimal_mul_exact() {
    let a = Decimal::new(15, 1).unwrap(); // 1.5
    let b = Decimal::from_int(2);
    assert_eq!(a.try_mul(b).unwrap(), Decimal::from_int(3));
    let c = Decimal::from_int(100);
    let rate = Decimal::new(1, 3).unwrap(); // 0.001
    assert_eq!(c.try_mul(rate).unwrap(), Decimal::new(1, 1).unwrap()); // 0.1
}

#[test]
fn decimal_rounding() {
    let tick = Decimal::new(1, 2).unwrap(); // 0.01
    let v = Decimal::new(105, 3).unwrap(); // 0.105
    assert_eq!(v.round_down_to(tick).unwrap(), Decimal::new(10, 2).unwrap());
    assert_eq!(v.round_up_to(tick).unwrap(), Decimal::new(11, 2).unwrap());
    // rounding down a negative value moves it further down
    let neg = Decimal::new(-5, 2).unwrap(); // -0.05
    let tenth = Decimal::new(1, 1).unwrap(); // 0.1
    assert_eq!(neg.round_down_to(tenth).unwrap(), Decimal::new(-1, 1).unwrap());
    // exact multiples stay put
    let ex = Decimal::new(10, 2).unwrap();
    assert_eq!(ex.round_down_to(tick).unwrap(), ex);
    assert_eq!(ex.round_up_to(tick).unwrap(), ex);
}
