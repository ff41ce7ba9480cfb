use feynman::decimal::Decimal;
use feynman::hexadecimal::hex_of;
use feynman::portfolio::{Positions, TrackedPosition};
use feynman::ids::{AccountId, AgentId, InstrumentId, VenueId};
use feynman::risk::{project_net_and_gross, signed_delta, RiskError};
use feynman::signal::Side;
use feynman::table::Table;
use feynman::time::{Duration, Timestamp};

fn dec(text: &str) -> Decimal {
    Decimal::parse(text).unwrap()
}

fn outside(d: Decimal) -> rust_decimal::Decimal {
    rust_decimal::Decimal::from_i128_with_scale(d.mantissa(), d.scale())
}

const SAMPLES: [&str; 10] = [
    "0",
    "1",
    "-1",
    "0.10",
    "123.456",
    "-0.0000001",
    "79228162514264337593543950335",
    "-7.9228162514264337593543950335",
    "3",
    "0.3333333333333333333333333333",
];

#[test]
fn arithmetic_is_that_of_the_decimal_crate() {
    for a in SAMPLES {
        for b in SAMPLES {
            let (x, y) = (dec(a), dec(b));
            let (p, q) = (outside(x), outside(y));
            assert_eq!(x.checked_add(y).map(outside), p.checked_add(q));
            assert_eq!(x.checked_sub(y).map(outside), p.checked_sub(q));
            assert_eq!(x.checked_mul(y).map(outside), p.checked_mul(q));
            assert_eq!(x.checked_div(y).map(outside), p.checked_div(q));
            assert_eq!(x.is_less(y), p < q);
            assert_eq!(x.is_at_most(y), p <= q);
            assert_eq!(x == y, p == q);
        }
        assert_eq!(outside(dec(a).normalize()).to_string(), outside(dec(a)).normalize().to_string());
        assert_eq!(outside(dec(a).abs()), outside(dec(a)).abs());
        for dp in 0..4 {
            assert_eq!(
                outside(dec(a).round_dp(dp)).to_string(),
                outside(dec(a)).round_dp(dp).to_string()
            );
        }
        assert_eq!(dec(a).text(), outside(dec(a)).to_string());
    }
}

/// Sums and products that need no rounding have the wider scale and the sum of the scales.
#[test]
fn exact_results_keep_their_scales() {
    assert_eq!(dec("1.50").checked_add(dec("2.5")).unwrap().text(), "4.00");
    assert_eq!(dec("1.5").checked_sub(dec("1.50")).unwrap().text(), "0.00");
    assert_eq!(dec("1.5").checked_mul(dec("2.0")).unwrap().text(), "3.00");
    assert_eq!(dec("7.50").checked_div(dec("2.5")).unwrap().text(), "3.0");
    assert!(dec("1").checked_div(dec("0.00")).is_none());
    let huge = dec("79228162514264337593543950335");
    assert!(huge.checked_add(dec("1")).is_none());
    assert!(huge.checked_mul(dec("2")).is_none());
}

/// A quotient that can be written is not rounded, though the mantissas do not divide evenly.
#[test]
fn quotients_that_can_be_written_are_exact() {
    assert_eq!(dec("15").checked_div(dec("10")).unwrap(), dec("1.5"));
    assert_eq!(dec("3").checked_div(dec("2")).unwrap(), dec("1.5"));
    assert_eq!(dec("-1").checked_div(dec("8")).unwrap(), dec("-0.125"));
    assert_eq!(dec("1").checked_div(dec("0.04")).unwrap(), dec("25"));
    let most = dec("79228162514264337593543950335");
    assert_eq!(most.checked_div(dec("10")).unwrap().text(), "7922816251426433759354395033.5");
}

/// What is rounded passes no number that can be written, and keeps its sign.
#[test]
fn rounding_passes_no_number_that_can_be_written() {
    let third = dec("1").checked_div(dec("3")).unwrap();
    assert_eq!(third.text(), "0.3333333333333333333333333333");
    let two_thirds = dec("2").checked_div(dec("-3")).unwrap();
    assert_eq!(two_thirds.text(), "-0.6666666666666666666666666667");
    let smallest = Decimal::from_parts(1, 28).unwrap();
    assert!(smallest.checked_div(dec("10")).unwrap().is_zero());
    assert!(smallest.checked_mul(dec("0.1")).unwrap().is_zero());
    let most = dec("79228162514264337593543950335");
    let fraction = dec("0.4");
    assert_eq!(most.checked_add(fraction).unwrap(), most);
    assert!(most.checked_add(dec("0.5")).is_none());
    assert_eq!(fraction.checked_sub(most).unwrap(), most.negated());
    assert!(most.checked_sub(fraction).unwrap().is_positive());
    let rounded = dec("7.9228162514264337593543950335").checked_add(dec("1")).unwrap();
    assert_eq!(rounded.text(), "8.922816251426433759354395034");
    assert!(most.checked_div(dec("0.5")).is_none());
}

#[test]
fn rounding_takes_midpoints_to_even() {
    assert_eq!(dec("2.5").round_dp(0).text(), "2");
    assert_eq!(dec("3.5").round_dp(0).text(), "4");
    assert_eq!(dec("-2.5").round_dp(0).text(), "-2");
    assert_eq!(dec("1.25").round_dp(1).text(), "1.2");
    assert_eq!(dec("1.2").round_dp(5).text(), "1.2");
}

#[test]
fn texts_are_fixed() {
    assert_eq!(dec("60").text_to(1), "60.0");
    assert_eq!(dec("59.99").text_to(1), format!("{:.1}", outside(dec("59.99"))));
    assert_eq!(dec("-0.05").text_to(1), format!("{:.1}", outside(dec("-0.05"))));
    assert_eq!(
        Decimal::from_parts(10_000_000_000_000_000_000_000_000_000, 0).unwrap().text_to(2),
        "10000000000000000000000000000.00"
    );
    assert_eq!(dec("1.000").text(), "1.000");
    assert!(Decimal::parse("1.2.3").is_err());
    assert!(Decimal::parse("").is_err());
    assert!(Decimal::from_parts(i128::MAX, 0).is_none());
    assert!(Decimal::from_parts(1, 29).is_none());
    assert_eq!(dec("1.0").min(dec("1")).text(), "1.0");
    assert_eq!(dec("2").negated().text(), "-2");
}

#[test]
fn projections_add_reductions_and_growth() {
    let project = |net: &str, gross: &str, delta: &str| {
        let (n, g) = project_net_and_gross(dec(net), dec(gross), dec(delta)).unwrap();
        (n.text(), g.text())
    };
    assert_eq!(project("4", "4", "-1"), ("3".to_owned(), "3".to_owned()));
    assert_eq!(project("4", "4", "2"), ("6".to_owned(), "6".to_owned()));
    assert_eq!(signed_delta(Side::Sell, dec("2")), dec("-2"));
    assert_eq!(signed_delta(Side::Buy, dec("2")), dec("2"));
    assert!(RiskError::Rejected("x".into()).text().contains("x"));
}

/// Net changes by the delta, and gross grows by its size less twice what it offsets.
#[test]
fn projections_offset_the_other_side() {
    for (net, gross, delta, net_after, gross_after) in [
        ("4", "10", "-3", "1", "7"),
        ("4", "10", "5", "9", "9"),
        ("-4", "10", "-3", "-7", "7"),
        ("1", "2", "1", "2", "2"),
        ("0", "0", "-2.5", "-2.5", "2.5"),
        ("3", "3", "-5", "-2", "2"),
    ] {
        let (n, g) = project_net_and_gross(dec(net), dec(gross), dec(delta)).unwrap();
        assert_eq!(n, dec(net_after), "{net} {gross} {delta}");
        assert_eq!(g, dec(gross_after), "{net} {gross} {delta}");
        assert!(n.abs().is_at_most(g));
    }
}

#[test]
fn times_have_texts_and_parts() {
    let t = Timestamp::from_nanos(1_774_008_000_123_456_789).unwrap();
    assert_eq!(t.rfc3339_text(), "2026-03-20T12:00:00.123456789+00:00");
    assert_eq!(t.debug_text(), "2026-03-20T12:00:00.123456789Z");
    assert_eq!(t.display_text(), "2026-03-20 12:00:00.123456789 UTC");
    assert_eq!(t.timestamp_millis(), 1_774_008_000_123);
    let before = Timestamp::from_nanos(-1).unwrap();
    assert_eq!(before.timestamp_millis(), -1);
    assert_eq!(before.rfc3339_text(), "1969-12-31T23:59:59.999999999+00:00");
    assert_eq!(before.seconds_since(t), -1_774_008_000);
    assert!(before.is_before(t));
    assert!(Timestamp::from_utc_millis(8_210_266_876_799_999).is_some());
    assert!(Timestamp::from_utc_millis(8_210_266_876_800_000).is_none());
    assert!(Timestamp::from_utc_millis(-8_334_601_228_800_000).is_some());
    assert!(Timestamp::from_utc_millis(-8_334_601_228_800_001).is_none());
    assert!(Timestamp::from_nanos(i128::MAX).is_none());
}

#[test]
fn durations_have_texts() {
    assert_eq!(Duration::from_secs(30).debug_text(), "30s");
    assert_eq!(Duration::from_millis(1_500).debug_text(), "1.5s");
    assert_eq!(Duration::from_millis(250).debug_text(), "250ms");
    assert_eq!(Duration::from_millis(1_999).as_millis(), 1_999);
}

#[test]
fn bytes_have_two_digits_each() {
    assert_eq!(hex_of(&[0x00, 0x0f, 0xa5, 0xff]), "000fa5ff");
    assert_eq!(hex_of(&[]), "");
}

#[test]
fn tables_keep_one_value_per_key() {
    let mut table = Table::new();
    assert!(table.get("a").is_none());
    table.insert("a".to_owned(), 1u32);
    table.insert("b".to_owned(), 2u32);
    table.insert("a".to_owned(), 3u32);
    assert_eq!(table.len(), 2);
    assert_eq!(table.get("a"), Some(&3));
    assert!(table.contains_key("b"));
    assert_eq!(table.clone().entries().len(), 2);
    let keys: Vec<&str> = table.entries().iter().map(|entry| entry.0.as_str()).collect();
    assert_eq!(keys, vec!["a", "b"]);
}

#[test]
fn positions_are_kept_by_agent_venue_and_instrument() {
    let position = |agent: &str, qty: &str| TrackedPosition {
        agent: AgentId(agent.into()),
        venue: VenueId("bybit".into()),
        account: AccountId("main".into()),
        instrument: InstrumentId("BTC".into()),
        qty: dec(qty),
        avg_entry_price: Decimal::zero(),
        unrealized_pnl: Decimal::zero(),
        realized_pnl: Decimal::zero(),
        total_fees_paid: Decimal::zero(),
        accumulated_funding: Decimal::zero(),
        fill_ids: Vec::new(),
        signal_ids: Vec::new(),
        opened_at: Timestamp::from_millis(0),
        last_fill_at: Timestamp::from_millis(0),
    };
    let mut positions = Positions::new();
    positions.insert(position("satoshi", "1"));
    positions.insert(position("graham", "2"));
    positions.insert(position("satoshi", "3"));
    let listed: Vec<(&str, Decimal)> =
        positions.entries().iter().map(|p| (p.agent.0.as_str(), p.qty)).collect();
    assert_eq!(listed, vec![("satoshi", dec("3")), ("graham", dec("2"))]);
    let found = positions
        .get(&AgentId("satoshi".into()), &VenueId("bybit".into()), &InstrumentId("BTC".into()))
        .unwrap();
    assert_eq!(found.qty, dec("3"));
    assert!(positions
        .get(&AgentId("satoshi".into()), &VenueId("bybit".into()), &InstrumentId("ETH".into()))
        .is_none());
}
