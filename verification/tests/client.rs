use chrono::{Datelike, NaiveDate};
use paperticker::app::{
    App, Claim, Effect, JobState, Key, KeyCode, StatusKind, Tab, TradeField, TradeMode, TradeSide,
};
use paperticker::dates::{compute_max_staleness_days, stale_tickers};
use paperticker::number::{Number, Numerics};
use paperticker::proto::{
    HoldingRow, PortfolioSummary, Request, Response, TickerHistory, TransactionRow,
};
use paperticker::provider::ProviderStatus;
use paperticker::worker::{run_job, Job, JobKind, JobRun, JobStep, Update};

/// Double arithmetic, as the machine has it.
struct Doubles;

fn number(x: f64) -> Number {
    Number::from_bits(x.to_bits())
}

fn double(n: Number) -> f64 {
    f64::from_bits(n.bits)
}

impl Numerics for Doubles {
    fn plus(&self, a: Number, b: Number) -> Number {
        number(double(a) + double(b))
    }
    fn minus(&self, a: Number, b: Number) -> Number {
        number(double(a) - double(b))
    }
    fn times(&self, a: Number, b: Number) -> Number {
        number(double(a) * double(b))
    }
    fn over(&self, a: Number, b: Number) -> Number {
        number(double(a) / double(b))
    }
    fn root(&self, a: Number) -> Number {
        number(double(a).sqrt())
    }
    fn count(&self, n: usize) -> Number {
        number(n as f64)
    }
    fn nearest(&self, a: Number) -> usize {
        double(a).round() as usize
    }
    fn parse(&self, text: &str) -> Option<Number> {
        text.parse::<f64>().ok().map(number)
    }
    fn show(&self, a: Number) -> String {
        format!("{}", double(a))
    }
    fn fixed(&self, a: Number, places: usize) -> String {
        format!("{:.*}", places, double(a))
    }
    fn fixed_signed(&self, a: Number, places: usize) -> String {
        format!("{:+.*}", places, double(a))
    }
}

fn row(last_updated: &str) -> HoldingRow {
    HoldingRow {
        ticker: "X".to_string(),
        shares: number(1.0),
        avg_cost: number(1.0),
        current_price: number(1.0),
        value: number(1.0),
        cost_basis: number(1.0),
        gain: number(0.0),
        gain_pct: number(0.0),
        weight: number(0.0),
        last_updated: last_updated.to_string(),
    }
}

fn named_row(ticker: &str, last_updated: &str) -> HoldingRow {
    HoldingRow { ticker: ticker.to_string(), ..row(last_updated) }
}

fn today() -> i32 {
    NaiveDate::from_ymd_opt(2026, 5, 25).unwrap().num_days_from_ce()
}

#[test]
fn rows_already_current_today_are_not_refetched() {
    let rows = vec![named_row("AAA", "2026-05-25"), named_row("BBB", "2026-05-25")];
    assert!(stale_tickers(&rows, "2026-05-25", false).is_empty());
}

#[test]
fn stale_and_never_fetched_rows_are_refreshed() {
    let rows = vec![
        named_row("FRESH", "2026-05-25"),
        named_row("OLD", "2026-05-20"),
        named_row("NEW", "—"),
    ];
    assert_eq!(stale_tickers(&rows, "2026-05-25", false), vec!["OLD", "NEW"]);
}

#[test]
fn force_refetches_everything_including_current_rows() {
    let rows = vec![named_row("AAA", "2026-05-25"), named_row("BBB", "2026-05-25")];
    assert_eq!(stale_tickers(&rows, "2026-05-25", true), vec!["AAA", "BBB"]);
}

#[test]
fn job_fraction_tracks_progress_and_never_divides_by_zero() {
    let job = |done, total| JobState {
        label: "Refreshing".to_string(),
        done,
        total,
        current: String::new(),
    };
    let fraction = |done, total| double(job(done, total).fraction(&Doubles));
    assert_eq!(fraction(0, 7), 0.0);
    assert_eq!(fraction(7, 7), 1.0);
    assert!((fraction(3, 6) - 0.5).abs() < 1e-9);
    assert_eq!(fraction(0, 0), 1.0);
    assert_eq!(fraction(9, 3), 1.0);
}

#[test]
fn empty_rows_returns_none() {
    assert_eq!(compute_max_staleness_days(&vec![], today()), None);
}

#[test]
fn returns_max_gap_across_rows() {
    let rows = vec![row("2026-05-22"), row("2026-05-18"), row("2026-05-24")];
    assert_eq!(compute_max_staleness_days(&rows, today()), Some(7));
}

#[test]
fn one_unparseable_row_does_not_short_circuit_others() {
    let rows = vec![row("—"), row("2026-05-20")];
    assert_eq!(compute_max_staleness_days(&rows, today()), Some(5));
}

#[test]
fn all_unparseable_rows_return_none() {
    let rows = vec![row("—"), row("never")];
    assert_eq!(compute_max_staleness_days(&rows, today()), None);
}

#[test]
fn future_date_clamps_to_zero_not_negative() {
    let rows = vec![row("2026-06-01")];
    assert_eq!(compute_max_staleness_days(&rows, today()), Some(0));
}

#[test]
fn gaps_are_counted_across_leap_days() {
    let day = NaiveDate::from_ymd_opt(2024, 3, 1).unwrap().num_days_from_ce();
    assert_eq!(compute_max_staleness_days(&vec![row("2024-02-28")], day), Some(2));
    assert_eq!(compute_max_staleness_days(&vec![row("2023-02-29")], day), None);
}

fn summary(rows: Vec<HoldingRow>) -> Response {
    Response::Summary(PortfolioSummary {
        total_value: number(0.0),
        total_cost: number(0.0),
        total_gain: number(0.0),
        total_gain_pct: number(0.0),
        last_refresh: None,
        rows,
    })
}

fn history(ticker: &str) -> Response {
    Response::History(TickerHistory {
        ticker: ticker.to_string(),
        current_price: number(1.0),
        last_updated: "2026-05-25".to_string(),
        points: vec![],
        bands: vec![],
        holding: None,
    })
}

fn provider(ready: bool) -> Response {
    Response::ProviderStatus(ProviderStatus {
        selected: None,
        unavailable: None,
        key_configured: ready,
        ready,
        available: vec![],
    })
}

fn key(code: KeyCode) -> Key {
    Key { code, control: false, others: false }
}

fn press(app: &mut App, code: KeyCode) -> Effect {
    app.on_key(&Doubles, key(code))
}

fn type_in(app: &mut App, text: &str) {
    for c in text.chars() {
        assert!(matches!(press(app, KeyCode::Char(c)), Effect::Idle));
    }
}

fn app_with(rows: Vec<HoldingRow>) -> App {
    let mut app = App::new();
    app.provider_loaded(provider(true));
    app.summary_loaded(summary(rows));
    app
}

fn say(app: &App) -> (StatusKind, &str) {
    (app.status.kind, app.status.message.as_str())
}

#[test]
fn tabs_go_round_in_both_directions() {
    assert_eq!(
        Tab::ALL.map(|t| t.title()),
        ["Portfolio", "Detail", "Trade", "Transactions"]
    );
    let mut app = app_with(vec![]);
    let mut seen = vec![];
    for _ in 0..4 {
        press(&mut app, KeyCode::Tab);
        seen.push(app.tab);
    }
    assert_eq!(seen, vec![Tab::Detail, Tab::Trade, Tab::Transactions, Tab::Portfolio]);
    press(&mut app, KeyCode::BackTab);
    assert_eq!(app.tab, Tab::Transactions);
    press(&mut app, KeyCode::Char('1'));
    assert_eq!(app.tab, Tab::Portfolio);
    press(&mut app, KeyCode::Char('4'));
    assert_eq!(app.tab, Tab::Transactions);
}

#[test]
fn the_cursor_goes_round_and_survives_new_rows() {
    let mut app = app_with(vec![named_row("A", "d"), named_row("B", "d"), named_row("C", "d")]);
    press(&mut app, KeyCode::Up);
    assert_eq!(app.holdings_state, Some(2));
    assert_eq!(app.selected_holding().unwrap().ticker, "C");
    app.summary_loaded(summary(vec![named_row("A", "d")]));
    assert_eq!(app.holdings_state, Some(0));
    app.summary_loaded(summary(vec![]));
    assert_eq!(app.holdings_state, None);
    assert!(app.selected_holding().is_none());
    app.summary_loaded(summary(vec![named_row("A", "d")]));
    assert_eq!(app.holdings_state, Some(0));
    press(&mut app, KeyCode::Down);
    assert_eq!(app.holdings_state, Some(0));
}

#[test]
fn the_ledger_has_a_cursor_of_its_own() {
    let line = TransactionRow {
        id: 1,
        ticker: "A".to_string(),
        shares: number(1.0),
        price: number(1.0),
        txn_date: "d".to_string(),
    };
    let mut app = app_with(vec![]);
    app.transactions_loaded(Response::Transactions { rows: vec![line.clone(), line.clone()] });
    press(&mut app, KeyCode::Char('4'));
    press(&mut app, KeyCode::Char('j'));
    assert_eq!(app.txns_state, Some(1));
    app.transactions_loaded(Response::Transactions { rows: vec![line] });
    assert_eq!(app.txns_state, Some(0));
    app.transactions_loaded(Response::Transactions { rows: vec![] });
    assert_eq!(app.txns_state, None);
    app.transactions_loaded(Response::Pong);
    assert_eq!(say(&app), (StatusKind::Error, "unexpected response from daemon"));
    app.transactions_loaded(Response::Error { message: "down".to_string() });
    assert_eq!(say(&app), (StatusKind::Error, "down"));
}

#[test]
fn the_detail_is_asked_for_once_and_follows_the_cursor() {
    let mut app = app_with(vec![named_row("A", "d"), named_row("B", "d")]);
    match press(&mut app, KeyCode::Enter) {
        Effect::AskHistory { ticker } => assert_eq!(ticker, "A"),
        other => panic!("{other:?}"),
    }
    assert_eq!(app.tab, Tab::Detail);
    app.detail_answered(history("A"));
    assert!(matches!(press(&mut app, KeyCode::Char('2')), Effect::Idle));
    match press(&mut app, KeyCode::Down) {
        Effect::AskHistory { ticker } => assert_eq!(ticker, "B"),
        other => panic!("{other:?}"),
    }
    assert!(app.detail.is_none());
    app.detail_answered(Response::Error { message: "no data".to_string() });
    assert_eq!(say(&app), (StatusKind::Error, "no data"));
    app.detail_answered(Response::Pong);
    assert_eq!(say(&app), (StatusKind::Error, "unexpected response"));

    let mut empty = app_with(vec![]);
    assert!(matches!(press(&mut empty, KeyCode::Char('2')), Effect::Idle));
    assert_eq!(say(&empty), (StatusKind::Info, "Select a holding on the Portfolio tab first"));
}

#[test]
fn moving_about_types_nothing_and_typing_does_not_move() {
    let mut app = app_with(vec![]);
    press(&mut app, KeyCode::Char('3'));
    assert_eq!((app.tab, app.trade.mode), (Tab::Trade, TradeMode::Nav));
    press(&mut app, KeyCode::Char('j'));
    assert_eq!(app.trade.field, TradeField::Shares);
    press(&mut app, KeyCode::Char('k'));
    assert_eq!(app.trade.field, TradeField::Ticker);
    assert_eq!(app.trade.ticker, "");
    press(&mut app, KeyCode::Char('i'));
    assert_eq!(app.trade.mode, TradeMode::Edit);
    type_in(&mut app, "q1hl b");
    assert_eq!(app.trade.ticker, "q1hlb");
    assert!(!app.should_quit);
    press(&mut app, KeyCode::Backspace);
    assert_eq!(app.trade.ticker, "q1hl");
    app.on_key(&Doubles, Key { code: KeyCode::Char('x'), control: true, others: true });
    assert_eq!(app.trade.ticker, "q1hl");
    app.on_key(&Doubles, Key { code: KeyCode::Left, control: true, others: false });
    assert_eq!(app.trade.side, TradeSide::Sell);
    press(&mut app, KeyCode::Left);
    assert_eq!(app.trade.side, TradeSide::Sell);
    press(&mut app, KeyCode::Tab);
    press(&mut app, KeyCode::Tab);
    assert_eq!(app.trade.field, TradeField::Ticker);
    press(&mut app, KeyCode::Esc);
    assert_eq!((app.tab, app.trade.mode), (Tab::Trade, TradeMode::Nav));
    assert_eq!(say(&app), (StatusKind::Info, "Nav mode — press i or Enter to edit a field"));
    press(&mut app, KeyCode::Esc);
    assert_eq!(app.tab, Tab::Portfolio);
    assert_eq!(say(&app), (StatusKind::Info, "Cancelled trade"));
    press(&mut app, KeyCode::Esc);
    assert_eq!(say(&app), (StatusKind::Info, ""));
    press(&mut app, KeyCode::Char('q'));
    assert!(app.should_quit);
}

#[test]
fn control_c_quits_even_while_typing() {
    let mut app = app_with(vec![]);
    press(&mut app, KeyCode::Char('b'));
    assert_eq!(app.trade.mode, TradeMode::Edit);
    app.on_key(&Doubles, Key { code: KeyCode::Char('c'), control: true, others: false });
    assert!(app.should_quit);
}

#[test]
fn a_trade_is_prefilled_with_the_selected_holding() {
    let mut app = app_with(vec![named_row("IBM", "d")]);
    press(&mut app, KeyCode::Char('s'));
    assert_eq!(app.trade.ticker, "IBM");
    assert_eq!(app.trade.side, TradeSide::Sell);
    assert_eq!(app.trade.field, TradeField::Shares);
}

fn submission(effect: Effect) -> (Job, Claim) {
    match effect {
        Effect::Submit { job, claim } => (job, claim),
        other => panic!("{other:?}"),
    }
}

#[test]
fn a_form_is_checked_before_it_is_submitted() {
    let mut app = app_with(vec![]);
    press(&mut app, KeyCode::Char('b'));
    let refused = |app: &mut App| {
        assert!(matches!(press(app, KeyCode::Enter), Effect::Idle));
        assert_eq!(app.status.kind, StatusKind::Error);
        app.status.message.clone()
    };
    assert_eq!(refused(&mut app), "ticker is required");
    type_in(&mut app, "aapl");
    assert_eq!(refused(&mut app), "shares must be a positive number");
    press(&mut app, KeyCode::Tab);
    type_in(&mut app, "-1");
    assert_eq!(refused(&mut app), "shares must be a positive number");
    press(&mut app, KeyCode::Backspace);
    press(&mut app, KeyCode::Backspace);
    type_in(&mut app, "2.5");
    press(&mut app, KeyCode::Tab);
    type_in(&mut app, "x");
    assert_eq!(refused(&mut app), "price must be positive or blank");
    press(&mut app, KeyCode::Backspace);
    type_in(&mut app, "100");
    let (job, claim) = submission(press(&mut app, KeyCode::Enter));
    match job {
        Job::Trade { request: Request::Buy { ticker, shares, price }, label } => {
            assert_eq!(ticker, "AAPL");
            assert_eq!(double(shares), 2.5);
            assert_eq!(price.map(double), Some(100.0));
            assert_eq!(label, "Buying 2.5 AAPL");
        }
        other => panic!("{other:?}"),
    }
    app.submitted(claim, true);
    assert_eq!(say(&app), (StatusKind::Info, "Submitting…"));
    assert!(matches!(press(&mut app, KeyCode::Enter), Effect::Idle));
    assert_eq!(
        say(&app),
        (StatusKind::Warn, "Buying 2.5 AAPL in progress — try again in a moment")
    );
}

#[test]
fn a_trade_that_is_done_clears_the_form() {
    let mut app = app_with(vec![named_row("IBM", "d")]);
    press(&mut app, KeyCode::Char('s'));
    type_in(&mut app, "3");
    let (job, claim) = submission(press(&mut app, KeyCode::Enter));
    assert!(matches!(
        job,
        Job::Trade { request: Request::Sell { ticker, shares }, .. }
            if ticker == "IBM" && double(shares) == 3.0
    ));
    app.submitted(claim, true);
    let effect =
        app.pump_worker(Update::Finished { kind: JobKind::Trade, ok: 1, failed: vec![] });
    assert!(matches!(effect, Effect::AskBooks));
    assert_eq!(say(&app), (StatusKind::Success, "Sold 3 IBM (simulated)"));
    assert_eq!(app.tab, Tab::Portfolio);
    assert_eq!((app.trade.shares.as_str(), app.trade.ticker.as_str()), ("", "IBM"));
    assert!(app.job.is_none());
}

#[test]
fn a_trade_that_failed_stays_in_the_form() {
    let mut app = app_with(vec![named_row("IBM", "d")]);
    press(&mut app, KeyCode::Char('s'));
    type_in(&mut app, "3");
    let (_, claim) = submission(press(&mut app, KeyCode::Enter));
    app.submitted(claim, true);
    let failed = vec!["only holding 1 of IBM".to_string()];
    let effect = app.pump_worker(Update::Finished { kind: JobKind::Trade, ok: 0, failed });
    assert!(matches!(effect, Effect::Idle));
    assert_eq!(say(&app), (StatusKind::Error, "only holding 1 of IBM"));
    assert_eq!((app.tab, app.trade.shares.as_str()), (Tab::Trade, "3"));
}

#[test]
fn a_refresh_asks_for_the_provider_first_and_takes_the_slot() {
    let mut app = app_with(vec![named_row("OLD", "2026-05-20"), named_row("NEW", "2026-05-25")]);
    assert!(matches!(press(&mut app, KeyCode::Char('R')), Effect::AskProvider { force: true }));
    assert!(matches!(press(&mut app, KeyCode::Char('r')), Effect::AskProvider { force: false }));
    let (job, claim) = submission(app.provider_answered(provider(true), false, "2026-05-25"));
    assert!(matches!(job, Job::Refresh { tickers } if tickers == vec!["OLD"]));
    assert_eq!(claim.total, 1);
    app.submitted(claim, true);
    assert_eq!(say(&app), (StatusKind::Info, "Refreshing…"));
    let again = app.provider_answered(provider(true), true, "2026-05-25");
    assert!(matches!(again, Effect::Idle));
    assert_eq!(say(&app), (StatusKind::Warn, "Refreshing already in progress…"));
}

#[test]
fn a_refresh_that_cannot_be_says_why() {
    let mut app = app_with(vec![]);
    app.provider_answered(provider(true), false, "2026-05-25");
    assert_eq!(say(&app), (StatusKind::Info, "Nothing to refresh — no holdings yet"));
    app.summary_loaded(summary(vec![named_row("A", "2026-05-25")]));
    app.provider_answered(provider(true), false, "2026-05-25");
    assert_eq!(
        say(&app),
        (
            StatusKind::Info,
            "Every holding already has today's close — press R to re-fetch anyway"
        )
    );
    app.provider_answered(provider(false), true, "2026-05-25");
    assert_eq!(
        say(&app),
        (
            StatusKind::Warn,
            "No price provider configured — run `tickerctl provider set` in a shell"
        )
    );
    let (_, claim) = submission(app.provider_answered(provider(true), true, "2026-05-25"));
    app.submitted(claim, false);
    assert_eq!(
        say(&app),
        (StatusKind::Error, "background worker stopped — restart tickerc")
    );
    assert!(app.job.is_none());
}

#[test]
fn starting_up_catches_up_on_missed_days() {
    let mut app = app_with(vec![named_row("A", "2026-05-22"), named_row("B", "—")]);
    let (job, claim) = submission(app.boot("2026-05-25", today()));
    assert!(matches!(job, Job::Refresh { tickers } if tickers == vec!["A", "B"]));
    assert_eq!(say(&app), (StatusKind::Info, "Cache is 3 days stale — catching up…"));
    app.submitted(claim, true);
    let effect =
        app.pump_worker(Update::Finished { kind: JobKind::Refresh, ok: 2, failed: vec![] });
    assert!(matches!(effect, Effect::AskSummary));
    assert_eq!(say(&app), (StatusKind::Success, "Caught up after 3 days offline"));
    assert!(app.catch_up.is_none());
}

#[test]
fn one_missed_day_is_singular() {
    let mut app = app_with(vec![named_row("A", "2026-05-24")]);
    let (_, claim) = submission(app.boot("2026-05-25", today()));
    assert_eq!(app.status.message, "Cache is 1 day stale — catching up…");
    app.submitted(claim, true);
    app.pump_worker(Update::Finished { kind: JobKind::Refresh, ok: 1, failed: vec![] });
    assert_eq!(app.status.message, "Caught up after 1 day offline");
}

#[test]
fn starting_up_is_quiet_with_a_current_cache_and_warns_without_a_provider() {
    let mut app = app_with(vec![named_row("A", "2026-05-25")]);
    assert!(matches!(app.boot("2026-05-25", today()), Effect::Idle));
    assert_eq!(say(&app), (StatusKind::Info, ""));
    app.provider_loaded(provider(false));
    app.boot("2026-05-25", today());
    assert_eq!(app.status.kind, StatusKind::Warn);
    let mut unknown = App::new();
    assert!(matches!(unknown.boot("2026-05-25", today()), Effect::Idle));
}

#[test]
fn progress_is_folded_into_the_job_in_flight() {
    let mut app = app_with(vec![named_row("A", "d"), named_row("B", "d")]);
    app.pump_worker(Update::Started { label: "x".to_string(), total: 9 });
    assert!(app.job.is_none());
    let (_, claim) = submission(app.provider_answered(provider(true), false, "2026-05-25"));
    app.submitted(claim, true);
    app.pump_worker(Update::Started { label: "Refreshing".to_string(), total: 2 });
    app.pump_worker(Update::Progress { done: 1, current: "B".to_string() });
    let job = app.job.clone().unwrap();
    assert_eq!((job.done, job.total, job.current.as_str()), (1, 2, "B"));
    app.pump_worker(Update::Finished {
        kind: JobKind::Refresh,
        ok: 1,
        failed: vec!["B: cap".to_string()],
    });
    assert_eq!(say(&app), (StatusKind::Warn, "Refreshed 1, 1 failed — B: cap"));
    let (_, claim) = submission(app.provider_answered(provider(true), false, "2026-05-25"));
    app.submitted(claim, true);
    app.pump_worker(Update::Finished { kind: JobKind::Refresh, ok: 2, failed: vec![] });
    assert_eq!(say(&app), (StatusKind::Success, "Refreshed 2 tickers"));
    app.pump_worker(Update::Disconnected { message: "gone".to_string() });
    assert_eq!(
        say(&app),
        (StatusKind::Error, "lost the background connection: gone — restart tickerc")
    );
}

#[test]
fn after_a_refresh_the_chart_is_loaded_anew() {
    let mut app = app_with(vec![named_row("A", "d")]);
    assert!(matches!(app.refreshed(summary(vec![named_row("A", "e")])), Effect::Idle));
    press(&mut app, KeyCode::Char('d'));
    app.detail_answered(history("A"));
    match app.refreshed(summary(vec![named_row("A", "f")])) {
        Effect::AskHistory { ticker } => assert_eq!(ticker, "A"),
        other => panic!("{other:?}"),
    }
    assert!(app.detail.is_none());
}

#[test]
fn the_frame_counter_wraps() {
    let mut app = App::new();
    app.tick();
    assert_eq!(app.frame, 1);
    app.frame = usize::MAX;
    app.tick();
    assert_eq!(app.frame, 0);
}

fn call(step: JobStep) -> (Vec<Update>, Request, JobRun) {
    match step {
        JobStep::Call { updates, request, run } => (updates, request, run),
        other => panic!("{other:?}"),
    }
}

fn end(step: JobStep) -> (Vec<Update>, bool) {
    match step {
        JobStep::End { updates, connected } => (updates, connected),
        other => panic!("{other:?}"),
    }
}

#[test]
fn a_refresh_job_asks_for_one_ticker_after_another() {
    let tickers = vec!["A".to_string(), "B".to_string(), "C".to_string()];
    let (updates, request, run) = call(run_job(Job::Refresh { tickers }));
    assert!(matches!(
        &updates[..],
        [Update::Started { label, total: 3 }, Update::Progress { done: 0, current }]
            if label == "Refreshing" && current == "A"
    ));
    assert!(matches!(request, Request::RefreshTicker { ticker } if ticker == "A"));
    let (updates, request, run) = call(run.answer(Ok(Response::Done)));
    assert!(matches!(&updates[..], [Update::Progress { done: 1, current }] if current == "B"));
    assert!(matches!(request, Request::RefreshTicker { ticker } if ticker == "B"));
    let refused = Response::Error { message: "cap".to_string() };
    let (_, _, run) = call(run.answer(Ok(refused)));
    let (updates, connected) = end(run.answer(Ok(Response::Pong)));
    assert!(connected);
    match &updates[..] {
        [Update::Finished { kind: JobKind::Refresh, ok: 1, failed }] => {
            assert_eq!(failed, &vec!["B: cap", "C: unexpected response"]);
        }
        other => panic!("{other:?}"),
    }
}

#[test]
fn a_job_without_tickers_is_done_at_once() {
    let (updates, connected) = end(run_job(Job::Refresh { tickers: vec![] }));
    assert!(connected);
    assert_eq!(updates.len(), 2);
    assert!(matches!(&updates[1], Update::Finished { ok: 0, failed, .. } if failed.is_empty()));
}

#[test]
fn a_broken_connection_ends_the_worker() {
    let job = Job::Trade { request: Request::Ping, label: "Buying 1 A".to_string() };
    let (updates, _, run) = call(run_job(job.clone()));
    assert_eq!(updates.len(), 2);
    let (updates, connected) = end(run.answer(Err("broken pipe".to_string())));
    assert!(!connected);
    assert!(matches!(
        &updates[..],
        [Update::Disconnected { message }] if message == "broken pipe"
    ));
    let trade = |answer: Response| {
        let (_, _, run) = call(run_job(job.clone()));
        match end(run.answer(Ok(answer))).0.pop().unwrap() {
            Update::Finished { kind: JobKind::Trade, ok, failed } => (ok, failed),
            other => panic!("{other:?}"),
        }
    };
    assert_eq!(trade(Response::Done), (1, vec![]));
    assert_eq!(
        trade(Response::Error { message: "no".to_string() }),
        (0, vec!["no".to_string()])
    );
    assert_eq!(trade(Response::Pong), (0, vec!["unexpected response".to_string()]));
}
