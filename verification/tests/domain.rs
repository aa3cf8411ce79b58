use actual_mcp::domain::{BudgetDate, BudgetMonth, Money};

/// Arithmetic must stay in integer cents; only serialization sees a float.
#[test]
fn money_sums_exactly() {
    let cents = [10, 20, 30].map(Money::from_cents);
    assert_eq!(Money::sum(&cents).cents(), 60);

    // 0.1 + 0.2 != 0.3 in f64, but these are integers all the way.
    let tricky = [Money::from_cents(10), Money::from_cents(20)];
    assert_eq!(Money::sum(&tricky).cents(), 30);
}

#[test]
fn money_knows_direction() {
    assert!(Money::from_cents(-1).is_outflow());
    assert!(!Money::from_cents(0).is_outflow());
    assert_eq!(Money::from_cents(-943).abs().cents(), 943);
}

#[test]
fn dates_round_trip() {
    let d = BudgetDate::from_int(20260903).unwrap();
    assert_eq!(d.to_iso(), "2026-09-03");
    assert_eq!(BudgetDate::parse_iso("2026-09-03"), Some(d));
    assert_eq!(serde_json::to_string(&d.to_iso()).unwrap(), "\"2026-09-03\"");
}

#[test]
fn bad_dates_are_rejected() {
    assert_eq!(BudgetDate::parse_iso("2026-13-03"), None, "month 13");
    assert_eq!(BudgetDate::parse_iso("2026-09-32"), None, "day 32");
    assert_eq!(BudgetDate::parse_iso("2026-9-3"), None, "not zero padded");
    assert_eq!(BudgetDate::parse_iso("03/09/2026"), None, "not ISO");
    assert_eq!(BudgetDate::parse_iso(""), None);
    assert_eq!(BudgetDate::from_int(0), None);
}

#[test]
fn months_round_trip_and_bound_days() {
    let m = BudgetMonth::parse_iso("2026-08").unwrap();
    assert_eq!(m.as_int(), 202608);
    assert_eq!(m.to_iso(), "2026-08");
    assert_eq!(m.first_day().as_int(), 20260801);
    assert_eq!(m.last_day().as_int(), 20260831);
    assert_eq!(BudgetMonth::parse_iso("2026-13"), None);
}

#[test]
fn months_advance_across_a_year_boundary() {
    let dec = BudgetMonth::from_int(202612).unwrap();
    assert_eq!(dec.next(), BudgetMonth::from_int(202701).unwrap());
    let aug = BudgetMonth::from_int(202608).unwrap();
    assert_eq!(aug.next(), BudgetMonth::from_int(202609).unwrap());
}

#[test]
fn a_date_knows_its_month() {
    assert_eq!(
        BudgetDate::from_int(20260903).unwrap().month(),
        BudgetMonth::from_int(202609).unwrap()
    );
}

#[test]
fn sums_that_do_not_fit_are_told() {
    let items = [Money::from_cents(i64::MAX), Money::from_cents(1)];
    assert_eq!(Money::checked_sum(&items), None);
    let back = [Money::from_cents(i64::MAX), Money::from_cents(-1)];
    assert_eq!(Money::checked_sum(&back), Some(Money::from_cents(i64::MAX - 1)));
    assert_eq!(Money::from_cents(i64::MAX).checked_add(Money::from_cents(1)), None);
}

#[test]
fn money_adds_subtracts_and_negates() {
    let (a, b) = (Money::from_cents(250), Money::from_cents(-100));
    assert_eq!(a + b, Money::from_cents(150));
    assert_eq!(a - b, Money::from_cents(350));
    assert_eq!(-a, Money::from_cents(-250));
    assert_eq!(Money::default(), Money::zero());
}

#[test]
fn every_day_up_to_the_31st_is_a_day_of_its_month() {
    let m = BudgetMonth::from_int(202602).unwrap();
    let d = BudgetDate::from_int(20260228).unwrap();
    assert_eq!(d.month(), m);
    assert!(m.first_day() <= d && d <= m.last_day());
    assert_eq!(BudgetMonth::from_int(202600), None);
    assert_eq!(BudgetMonth::from_int(202613), None);
}

#[test]
fn a_text_that_reads_as_a_date_is_its_text() {
    for text in ["2026-09-03", "9999-12-31", "0100-01-01", "2026-02-31", "0000-01-01", "2026-00-01", "202\u{e9}-01-01"] {
        match BudgetDate::parse_iso(text) {
            Some(date) => assert_eq!(date.to_iso(), text),
            None => assert!(text.starts_with("0000") || text.contains("-00-") || !text.is_ascii()),
        }
    }
    assert_eq!(BudgetMonth::parse_iso("2026-8"), None);
    assert_eq!(BudgetMonth::parse_iso("202608"), None);
    assert_eq!(BudgetMonth::parse_iso("0999-12").unwrap().to_iso(), "0999-12");
}

#[test]
fn texts_of_dates_are_ordered_as_dates() {
    let days = [1_00_01_01, 999_12_31, 2026_09_03, 2026_10_01, 9999_12_31];
    for a in days {
        for b in days {
            let (x, y) = (BudgetDate::from_int(a).unwrap(), BudgetDate::from_int(b).unwrap());
            assert_eq!(x < y, x.to_iso() < y.to_iso());
        }
    }
}
