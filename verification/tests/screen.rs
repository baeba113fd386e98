use chrono::{Datelike, NaiveDate};
use paperticker::app::{JobState, StatusKind, Tab, TradeField, TradeForm, TradeMode, TradeSide};
use paperticker::number::{Number, Numerics};
use paperticker::proto::{
    BandPoint, HistoryPoint, HoldingRow, PortfolioSummary, TickerHistory, TransactionRow,
};
use paperticker::provider::{lookup, ProviderStatus};
use paperticker::view::{
    chart, detail_cards, footer_height, hints, holding_row, holdings_title, progress_line,
    provider_banner, status_look, summary_cards, tab_label, title_with_day, trade_model, txn_row,
    Card, Color, Look, Span,
};

/// Double arithmetic, as the machine has it.
struct Doubles;

fn number(x: f64) -> Number {
    Number::from_bits(x.to_bits())
}

fn double(n: Number) -> f64 {
    f64::from_bits(n.bits)
}

impl Numerics for Doubles {
    fn plus(&self, a: Number, b: Number) -> Number {
        number(double(a) + double(b))
    }
    fn minus(&self, a: Number, b: Number) -> Number {
        number(double(a) - double(b))
    }
    fn times(&self, a: Number, b: Number) -> Number {
        number(double(a) * double(b))
    }
    fn over(&self, a: Number, b: Number) -> Number {
        number(double(a) / double(b))
    }
    fn root(&self, a: Number) -> Number {
        number(double(a).sqrt())
    }
    fn count(&self, n: usize) -> Number {
        number(n as f64)
    }
    fn nearest(&self, a: Number) -> usize {
        double(a).round() as usize
    }
    fn parse(&self, text: &str) -> Option<Number> {
        text.parse::<f64>().ok().map(number)
    }
    fn show(&self, a: Number) -> String {
        format!("{}", double(a))
    }
    fn fixed(&self, a: Number, places: usize) -> String {
        format!("{:.*}", places, double(a))
    }
    fn fixed_signed(&self, a: Number, places: usize) -> String {
        format!("{:+.*}", places, double(a))
    }
}

fn job(done: usize, total: usize, current: &str) -> JobState {
    JobState {
        label: "Refreshing".to_string(),
        done,
        total,
        current: current.to_string(),
    }
}

/// The rendered line, with styling dropped.
fn text(tick: usize, job: &JobState) -> String {
    progress_line(&Doubles, tick, job).iter().map(|s| s.text.as_str()).collect()
}

#[test]
fn a_multi_item_job_shows_a_bar_a_count_and_the_current_item() {
    let line = text(0, &job(3, 7, "NVDA"));
    assert!(line.contains("Refreshing"), "{line}");
    assert!(line.contains("3/7"), "{line}");
    assert!(line.contains("NVDA"), "{line}");
    assert!(line.contains('█') && line.contains('░'), "no bar: {line}");
    assert_eq!(line, format!(" ⠋ Refreshing {}{} 3/7 NVDA", "█".repeat(10), "░".repeat(14)));
}

#[test]
fn the_bar_fills_as_the_job_progresses() {
    let filled = |done| text(0, &job(done, 8, "X")).matches('█').count();
    assert_eq!(filled(0), 0);
    assert!(filled(4) > 0 && filled(4) < filled(8));
    assert_eq!(filled(8), 24);
}

#[test]
fn a_single_item_job_gets_a_spinner_but_no_bar() {
    let line = text(0, &job(0, 1, "Buying 5 AAPL"));
    assert!(!line.contains('█') && !line.contains('░'), "{line}");
    assert!(line.contains("Buying 5 AAPL"), "{line}");
}

#[test]
fn the_spinner_advances_with_the_frame_counter() {
    let j = job(1, 4, "IBM");
    let frames: std::collections::HashSet<char> =
        (0..16).map(|t| text(t, &j).chars().nth(1).unwrap()).collect();
    assert!(frames.len() > 1, "spinner never moved: {frames:?}");
    assert_eq!(frames.len(), 8);
    assert_eq!(text(16, &j), text(0, &j));
}

#[test]
fn the_footer_grows_while_a_job_runs() {
    assert_eq!((footer_height(true), footer_height(false)), (3, 2));
}

fn look(fg: Option<Color>, bg: Option<Color>, bold: bool) -> Look {
    Look { fg, bg, bold }
}

#[test]
fn the_banner_tells_what_can_be_fetched() {
    let status = |known: bool, unavailable: Option<&str>, ready: bool| {
        let st = ProviderStatus {
            selected: if known { lookup("alphavantage") } else { None },
            unavailable: unavailable.map(str::to_string),
            key_configured: ready,
            ready,
            available: vec![],
        };
        let s = provider_banner(&Some(st));
        (s.text, s.look)
    };
    let alarm = look(Some(Color::White), Some(Color::Red), true);
    let unknown = provider_banner(&None);
    assert_eq!(unknown.text, "provider: ? ");
    assert_eq!(
        status(false, Some("typo"), false),
        (
            "⚠ configured provider unavailable — run: tickerctl provider set ".to_string(),
            alarm
        )
    );
    assert_eq!(
        status(false, None, false),
        ("⚠ no provider — run: tickerctl provider set ".to_string(), alarm)
    );
    assert_eq!(
        status(true, None, false),
        ("⚠ Alpha Vantage — no API key ".to_string(), alarm)
    );
    assert_eq!(
        status(true, None, true),
        ("provider: Alpha Vantage ".to_string(), look(Some(Color::Green), None, false))
    );
}

#[test]
fn tabs_are_numbered() {
    assert_eq!(tab_label(Tab::Portfolio), " 1 Portfolio ");
    assert_eq!(tab_label(Tab::Transactions), " 4 Transactions ");
    assert!(hints(Tab::Detail).starts_with("[↑↓/jk] cycle holdings"));
    assert_eq!(status_look(StatusKind::Info), look(Some(Color::Gray), None, false));
    assert_eq!(status_look(StatusKind::Error), look(Some(Color::Red), None, true));
}

#[test]
fn the_title_tells_how_old_the_prices_are() {
    let today = NaiveDate::from_ymd_opt(2026, 5, 25).unwrap().num_days_from_ce();
    let title = |d: Option<&str>| holdings_title(&d.map(str::to_string), today);
    assert_eq!(title(None), " Holdings ");
    assert_eq!(title(Some("2026-05-25")), " Holdings — last refresh 2026-05-25 (today) ");
    assert_eq!(title(Some("2026-05-24")), " Holdings — last refresh 2026-05-24 (yesterday) ");
    assert_eq!(title(Some("2026-04-25")), " Holdings — last refresh 2026-04-25 (30 days ago) ");
    assert_eq!(title(Some("2027-01-01")), " Holdings — last refresh 2027-01-01 (today) ");
    assert_eq!(title(Some("—")), " Holdings — last refresh — ");
    assert_eq!(
        title_with_day(&Some("x".to_string()), Some(today - 2), today),
        " Holdings — last refresh x (2 days ago) "
    );
}

fn holding(gain: f64) -> HoldingRow {
    HoldingRow {
        ticker: "AAPL".to_string(),
        shares: number(1.5),
        avg_cost: number(10.0),
        current_price: number(12.345),
        value: number(18.5175),
        cost_basis: number(15.0),
        gain: number(gain),
        gain_pct: number(23.45),
        weight: number(33.333),
        last_updated: "2026-05-25".to_string(),
    }
}

fn cells(spans: Vec<Span>) -> Vec<String> {
    spans.into_iter().map(|s| s.text).collect()
}

#[test]
fn a_holding_is_aligned_in_its_columns() {
    let row = holding_row(&Doubles, &holding(3.5175));
    assert_eq!(row[6].look, look(Some(Color::Green), None, false));
    assert_eq!(
        cells(row),
        vec![
            "AAPL",
            "    1.5000",
            "$    10.00",
            "$    12.35",
            "$      18.52",
            "  33.3%",
            "$      +3.52",
            "  +23.45%"
        ]
    );
    let loss = holding_row(&Doubles, &holding(-1234567.891));
    assert_eq!(loss[7].look, look(Some(Color::Red), None, false));
    assert_eq!(loss[6].text, "$-1234567.89");
}

#[test]
fn a_transaction_shows_its_total() {
    let t = TransactionRow {
        id: 1,
        ticker: "IBM".to_string(),
        shares: number(-2.0),
        price: number(10.5),
        txn_date: "2026-05-25".to_string(),
    };
    let row = txn_row(&Doubles, &t);
    assert_eq!(row[2].look, look(Some(Color::Red), None, false));
    assert_eq!(cells(row), vec!["2026-05-25", "IBM", "-2.0000", "$10.50", "$-21.00"]);
}

fn cards(cards: Vec<Card>) -> Vec<(String, String, Color)> {
    cards.into_iter().map(|c| (c.title, c.value, c.color)).collect()
}

fn card(title: &str, value: &str, color: Color) -> (String, String, Color) {
    (title.to_string(), value.to_string(), color)
}

#[test]
fn the_summary_has_four_cards() {
    let s = PortfolioSummary {
        total_value: number(100.0),
        total_cost: number(101.0),
        total_gain: number(-1.0),
        total_gain_pct: number(-0.990099),
        last_refresh: None,
        rows: vec![],
    };
    assert_eq!(
        cards(summary_cards(&Doubles, &s)),
        vec![
            card("Value", "$100.00", Color::White),
            card("Cost", "$101.00", Color::White),
            card("Gain", "$-1.00", Color::Red),
            card("Return", "-0.99%", Color::Red),
        ]
    );
}

fn ticker(points: &[f64], bands: Vec<BandPoint>, held: bool) -> TickerHistory {
    TickerHistory {
        ticker: "AAPL".to_string(),
        current_price: number(12.5),
        last_updated: "2026-05-25".to_string(),
        points: points
            .iter()
            .enumerate()
            .map(|(i, c)| HistoryPoint { date: format!("d{i}"), close: number(*c) })
            .collect(),
        bands,
        holding: if held { Some(holding(1.0)) } else { None },
    }
}

#[test]
fn a_ticker_that_is_not_held_has_blank_cards() {
    assert_eq!(
        cards(detail_cards(&Doubles, &ticker(&[], vec![], false))),
        vec![
            card("Price", "$12.50", Color::Cyan),
            card("Updated", "2026-05-25", Color::Gray),
            card("Shares", "—", Color::DarkGray),
            card("Return", "—", Color::DarkGray),
        ]
    );
    assert_eq!(
        cards(detail_cards(&Doubles, &ticker(&[], vec![], true)))[2..],
        [
            card("Shares", "1.5000", Color::White),
            card("Return", "+23.45%", Color::Green),
        ]
    );
}

#[test]
fn a_chart_leaves_room_around_its_lines() {
    let none = BandPoint { sma: None, upper: None, lower: None };
    let some = BandPoint {
        sma: Some(number(15.0)),
        upper: Some(number(30.0)),
        lower: Some(number(0.0)),
    };
    let c = chart(&Doubles, &ticker(&[10.0, 20.0, 15.0], vec![none, some, some], false)).unwrap();
    assert_eq!(c.title, " AAPL — Close · SMA(20) · Bollinger ±2σ ");
    assert_eq!(c.close.len(), 3);
    assert_eq!(c.sma.iter().map(|p| p.at).collect::<Vec<_>>(), vec![1, 2]);
    assert_eq!(double(c.upper[0].value), 30.0);
    assert_eq!((double(c.low), double(c.high)), (-1.5, 31.5));
    assert_eq!(c.x_labels, vec!["d0", "d1", "d2"]);
    assert_eq!(c.y_labels, vec!["$-1.50", "$15.00", "$31.50"]);
    assert_eq!(c.last, 2);
    assert!(chart(&Doubles, &ticker(&[], vec![], false)).is_none());
}

#[test]
fn a_flat_or_senseless_chart_still_has_a_range() {
    let flat = chart(&Doubles, &ticker(&[5.0], vec![], false)).unwrap();
    assert_eq!((double(flat.low), double(flat.high)), (4.99, 5.01));
    assert_eq!(flat.last, 1);
    assert_eq!(flat.x_labels, vec!["d0", "d0", "d0"]);
    let nan = chart(&Doubles, &ticker(&[f64::NAN], vec![], false)).unwrap();
    assert_eq!((double(nan.low), double(nan.high)), (-0.05, 1.05));
    let huge = chart(&Doubles, &ticker(&[f64::INFINITY, 1.0], vec![], false)).unwrap();
    assert_eq!((double(huge.low), double(huge.high)), (-0.05, 1.05));
}

#[test]
fn the_trade_form_shows_the_cursor_in_the_field_being_edited() {
    let mut form = TradeForm::default();
    form.ticker = "AAPL".to_string();
    let nav = trade_model(&form);
    assert_eq!(cells(nav.title.clone()), vec![" Trade · ", "BUY", " · ", " NAV ", " "]);
    assert_eq!(nav.banner.len(), 8);
    let fields = |m: &paperticker::view::TradeModel| {
        m.fields.iter().map(|f| (f.label.clone(), f.text.clone())).collect::<Vec<_>>()
    };
    let pair = |a: &str, b: &str| (a.to_string(), b.to_string());
    assert_eq!(
        fields(&nav),
        vec![
            pair("Ticker", "AAPL"),
            pair("Shares", ""),
            pair("Price", "(blank = last cached close)")
        ]
    );
    assert_eq!(nav.fields[0].border, look(Some(Color::Cyan), None, true));
    assert_eq!(nav.fields[1].border, look(Some(Color::DarkGray), None, false));
    assert!(nav.note.is_none());

    form.mode = TradeMode::Edit;
    form.side = TradeSide::Sell;
    form.field = TradeField::Shares;
    form.shares = "3".to_string();
    let edit = trade_model(&form);
    assert_eq!(cells(edit.title.clone()), vec![" Trade · ", "SELL", " · ", " EDIT ", " "]);
    assert_eq!(fields(&edit), vec![pair("Ticker", "AAPL"), pair("Shares", "3█")]);
    assert_eq!(edit.fields[1].border, look(Some(Color::Magenta), None, true));
    assert_eq!(edit.note.as_deref(), Some("Sells execute at the last cached close."));
}
