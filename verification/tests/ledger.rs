use paperticker::bands::bollinger_bands;
use paperticker::number::{Number, Numerics};
use paperticker::portfolio::{history, positions, rank, summary, Position, Quote, Quoted};
use paperticker::proto::{HistoryPoint, HoldingRow, PriceSnapshot, TransactionRow};

/// Double arithmetic, as the machine has it.
struct Doubles;

fn number(x: f64) -> Number {
    Number::from_bits(x.to_bits())
}

fn double(n: Number) -> f64 {
    f64::from_bits(n.bits)
}

impl Numerics for Doubles {
    fn plus(&self, a: Number, b: Number) -> Number {
        number(double(a) + double(b))
    }
    fn minus(&self, a: Number, b: Number) -> Number {
        number(double(a) - double(b))
    }
    fn times(&self, a: Number, b: Number) -> Number {
        number(double(a) * double(b))
    }
    fn over(&self, a: Number, b: Number) -> Number {
        number(double(a) / double(b))
    }
    fn root(&self, a: Number) -> Number {
        number(double(a).sqrt())
    }
    fn count(&self, n: usize) -> Number {
        number(n as f64)
    }
    fn nearest(&self, a: Number) -> usize {
        double(a).round() as usize
    }
    fn parse(&self, text: &str) -> Option<Number> {
        text.parse::<f64>().ok().map(number)
    }
    fn show(&self, a: Number) -> String {
        format!("{}", double(a))
    }
    fn fixed(&self, a: Number, places: usize) -> String {
        format!("{:.*}", places, double(a))
    }
    fn fixed_signed(&self, a: Number, places: usize) -> String {
        format!("{:+.*}", places, double(a))
    }
}

fn trade(id: i64, ticker: &str, shares: f64, price: f64) -> TransactionRow {
    TransactionRow {
        id,
        ticker: ticker.to_string(),
        shares: number(shares),
        price: number(price),
        txn_date: "2026-05-25".to_string(),
    }
}

/// The trades, given oldest first, as the ledger lists them.
fn ledger(trades: &[(&str, f64, f64)]) -> Vec<TransactionRow> {
    let mut rows: Vec<TransactionRow> = trades
        .iter()
        .enumerate()
        .map(|(i, (t, s, p))| trade(i as i64 + 1, t, *s, *p))
        .collect();
    rows.reverse();
    rows
}

fn held(trades: &[(&str, f64, f64)]) -> Vec<(String, f64, f64)> {
    positions(&Doubles, &ledger(trades))
        .into_iter()
        .map(|h| (h.ticker, double(h.position.shares), double(h.position.cost_basis)))
        .collect()
}

#[test]
fn numbers_compare_as_doubles_do() {
    let values = [
        f64::NEG_INFINITY,
        -2.5,
        -f64::MIN_POSITIVE,
        -0.0,
        0.0,
        5e-324,
        1e-9,
        1.0,
        100.0,
        f64::MAX,
        f64::INFINITY,
        f64::NAN,
        -f64::NAN,
    ];
    for a in values {
        assert_eq!(number(a).is_nan(), a.is_nan(), "{a}");
        assert_eq!(number(a).is_finite(), a.is_finite(), "{a}");
        assert_eq!(number(a).negated().bits, (-a).to_bits(), "{a}");
        for b in values {
            assert_eq!(number(a).at_least(number(b)), a >= b, "{a} >= {b}");
            assert_eq!(number(a).exceeds(number(b)), a > b, "{a} > {b}");
        }
    }
    assert_eq!(double(number(-3.0).clip()), 0.0);
    assert_eq!(double(number(3.0).clip()), 3.0);
    assert_eq!(double(number(f64::NAN).clip()), 0.0);
}

#[test]
fn constants_have_the_bits_of_their_values() {
    assert_eq!(paperticker::number::DUST_BITS, 1e-9f64.to_bits());
    assert_eq!(paperticker::number::ONE_BITS, 1f64.to_bits());
    assert_eq!(paperticker::number::TWO_BITS, 2f64.to_bits());
    assert_eq!(paperticker::number::HUNDRED_BITS, 100f64.to_bits());
    assert_eq!(paperticker::number::INFINITY_BITS, f64::INFINITY.to_bits());
    assert_eq!(paperticker::view::NEGATIVE_INFINITY_BITS, f64::NEG_INFINITY.to_bits());
    assert_eq!(paperticker::view::MARGIN_BITS, 0.05f64.to_bits());
    assert_eq!(paperticker::view::LEAST_MARGIN_BITS, 0.01f64.to_bits());
    assert_eq!(paperticker::view::BAR_BITS, 24f64.to_bits());
}

#[test]
fn bands_have_correct_shape() {
    let closes: Vec<Number> = vec![number(1.0); 25];
    let bands = bollinger_bands(&Doubles, &closes, 20, number(2.0));
    assert_eq!(bands.len(), 25);
    assert!(bands[18].sma.is_none());
    assert!(bands[19].sma.is_some());
    assert!((double(bands[24].sma.unwrap()) - 1.0).abs() < 1e-9);
    assert!((double(bands[24].upper.unwrap()) - 1.0).abs() < 1e-9);
}

#[test]
fn bands_do_not_look_at_later_closes() {
    let closes: Vec<Number> = [1.0, 3.0, 5.0, 2.0, 8.0].iter().map(|x| number(*x)).collect();
    let all = bollinger_bands(&Doubles, &closes, 2, number(2.0));
    let bits = |n: Option<Number>| n.map(|n| n.bits);
    for k in 0..=closes.len() {
        let some = bollinger_bands(&Doubles, &closes[..k], 2, number(2.0));
        assert_eq!(some.len(), k);
        for (a, b) in some.iter().zip(&all) {
            assert_eq!(bits(a.sma), bits(b.sma));
            assert_eq!(bits(a.upper), bits(b.upper));
            assert_eq!(bits(a.lower), bits(b.lower));
        }
    }
}

#[test]
fn bands_are_deviations_around_the_mean() {
    let closes: Vec<Number> = [1.0, 3.0, 5.0].iter().map(|x| number(*x)).collect();
    let bands = bollinger_bands(&Doubles, &closes, 2, number(2.0));
    assert!(bands[0].upper.is_none() && bands[0].lower.is_none());
    assert_eq!(double(bands[1].sma.unwrap()), 2.0);
    assert_eq!(double(bands[1].upper.unwrap()), 4.0);
    assert_eq!(double(bands[1].lower.unwrap()), 0.0);
    assert_eq!(double(bands[2].sma.unwrap()), 4.0);
    assert_eq!(double(bands[2].upper.unwrap()), 6.0);
}

#[test]
fn buys_add_and_sells_keep_the_average_cost() {
    assert_eq!(
        held(&[("AAPL", 10.0, 100.0), ("AAPL", 10.0, 200.0), ("AAPL", -5.0, 999.0)]),
        vec![("AAPL".to_string(), 15.0, 2250.0)]
    );
}

#[test]
fn positions_come_in_the_order_of_their_tickers() {
    assert_eq!(
        held(&[("MSFT", 1.0, 2.0), ("AAPL", 2.0, 3.0), ("BRK-B", 1.0, 1.0)]),
        vec![
            ("AAPL".to_string(), 2.0, 6.0),
            ("BRK-B".to_string(), 1.0, 1.0),
            ("MSFT".to_string(), 1.0, 2.0)
        ]
    );
}

#[test]
fn what_is_sold_out_is_not_held() {
    assert_eq!(held(&[("A", 3.0, 10.0), ("A", -3.0, 12.0)]), vec![]);
    assert_eq!(held(&[("A", 1e-9, 10.0)]), vec![]);
    assert_eq!(held(&[("A", -3.0, 12.0), ("A", 4.0, 10.0)]), vec![("A".to_string(), 1.0, 40.0)]);
    assert_eq!(held(&[]), vec![]);
}

#[test]
fn a_trade_leaves_the_other_positions_alone() {
    let before = held(&[("A", 3.0, 10.0), ("B", 1.0, 5.0)]);
    let after = held(&[("A", 3.0, 10.0), ("B", 1.0, 5.0), ("B", 2.0, 8.0), ("B", -1.0, 9.0)]);
    assert_eq!(before[0], after[0]);
    let tickers: Vec<&str> = after.iter().map(|h| h.0.as_str()).collect();
    assert_eq!(tickers, vec!["A", "B"]);
}

#[test]
fn the_price_of_a_sale_does_not_enter_into_the_cost() {
    let sold = |price: f64| held(&[("A", 4.0, 10.0), ("A", 4.0, 20.0), ("A", -2.0, price)]);
    assert_eq!(sold(1.0), vec![("A".to_string(), 6.0, 90.0)]);
    assert_eq!(sold(999.0), sold(1.0));
}

fn quoted(ticker: &str, shares: f64, cost: f64, price: Option<f64>) -> Quoted {
    Quoted {
        ticker: ticker.to_string(),
        position: Position { shares: number(shares), cost_basis: number(cost) },
        quote: price.map(|p| Quote { price: number(p), fetched_on: "2026-05-25".to_string() }),
    }
}

#[test]
fn a_summary_values_weighs_and_ranks_the_holdings() {
    let held = vec![
        quoted("A", 2.0, 10.0, Some(10.0)),
        quoted("B", 1.0, 50.0, Some(60.0)),
        quoted("C", 5.0, 25.0, None),
        quoted("D", 4.0, 16.0, Some(5.0)),
    ];
    let s = summary(&Doubles, &held, Some("2026-05-25".to_string()));
    let order: Vec<&str> = s.rows.iter().map(|r| r.ticker.as_str()).collect();
    assert_eq!(order, vec!["B", "A", "D", "C"]);
    assert_eq!(double(s.total_value), 100.0);
    assert_eq!(double(s.total_cost), 101.0);
    assert_eq!(double(s.total_gain), -1.0);
    assert_eq!(double(s.total_gain_pct), -1.0 / 101.0 * 100.0);
    assert_eq!(s.last_refresh.as_deref(), Some("2026-05-25"));
    let b = &s.rows[0];
    assert_eq!(double(b.avg_cost), 50.0);
    assert_eq!(double(b.gain), 10.0);
    assert_eq!(double(b.gain_pct), 20.0);
    assert_eq!(double(b.weight), 60.0);
    let c = &s.rows[3];
    assert_eq!(double(c.current_price), 0.0);
    assert_eq!(double(c.gain), -25.0);
    assert_eq!(double(c.gain_pct), 0.0);
    assert_eq!(c.last_updated, "—");
}

#[test]
fn a_summary_of_nothing_is_all_zero() {
    let s = summary(&Doubles, &vec![], None);
    assert!(s.rows.is_empty());
    for n in [s.total_value, s.total_cost, s.total_gain, s.total_gain_pct] {
        assert_eq!(double(n), 0.0);
    }
    let worthless = summary(&Doubles, &vec![quoted("A", 1.0, 0.0, None)], None);
    assert_eq!(double(worthless.rows[0].weight), 0.0);
    assert_eq!(double(worthless.total_gain_pct), 0.0);
}

#[test]
fn rows_of_equal_value_keep_their_order() {
    let row = |ticker: &str, value: f64| HoldingRow {
        ticker: ticker.to_string(),
        shares: number(1.0),
        avg_cost: number(1.0),
        current_price: number(1.0),
        value: number(value),
        cost_basis: number(1.0),
        gain: number(0.0),
        gain_pct: number(0.0),
        weight: number(0.0),
        last_updated: String::new(),
    };
    let rows = vec![row("a", 1.0), row("b", 2.0), row("c", 1.0), row("d", 2.0), row("e", 1.0)];
    let order: Vec<String> = rank(rows).into_iter().map(|r| r.ticker).collect();
    assert_eq!(order, vec!["b", "d", "a", "c", "e"]);
    let rows = vec![row("a", f64::NAN), row("b", 2.0), row("c", f64::NAN)];
    assert_eq!(rank(rows).len(), 3);
}

#[test]
fn a_history_carries_closes_bands_and_the_position() {
    let points: Vec<HistoryPoint> = (0..21)
        .map(|i| HistoryPoint { date: format!("d{i:02}"), close: number(i as f64) })
        .collect();
    let snap = PriceSnapshot {
        ticker: "AAPL".to_string(),
        current_price: number(20.0),
        points,
        fetched_on: "2026-05-25".to_string(),
    };
    let txns = ledger(&[("AAPL", 2.0, 10.0), ("MSFT", 1.0, 1.0)]);
    let h = history(&Doubles, "AAPL", Some(snap.clone()), &txns).unwrap();
    assert_eq!(h.ticker, "AAPL");
    assert_eq!(h.last_updated, "2026-05-25");
    assert_eq!(h.points.len(), 21);
    assert_eq!(h.bands.len(), 21);
    assert!(h.bands[18].sma.is_none());
    assert_eq!(double(h.bands[19].sma.unwrap()), 9.5);
    let p = h.holding.unwrap();
    assert_eq!(double(p.avg_cost), 10.0);
    assert_eq!(double(p.value), 40.0);
    assert_eq!(double(p.gain), 20.0);
    assert_eq!(double(p.gain_pct), 100.0);
    assert_eq!(double(p.weight), 0.0);

    let other = history(&Doubles, "IBM", Some(snap), &txns).unwrap();
    assert!(other.holding.is_none());
    assert!(history(&Doubles, "IBM", None, &txns).is_none());
}
