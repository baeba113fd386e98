use std::collections::{BTreeMap, HashMap};

use paperticker::config::{Config, Removal};
use paperticker::number::{Number, Numerics};
use paperticker::proto::{PriceSnapshot, Request, Response, TransactionRow};
use paperticker::secret::SecretString;
use paperticker::server::{
    dispatch, handle, refresh_stale, validate_price_override, validate_shares, validate_ticker,
    Action, StaleCheck,
};
use paperticker::sources::Providers;

/// Double arithmetic, as the machine has it.
struct Doubles;

fn number(x: f64) -> Number {
    Number::from_bits(x.to_bits())
}

fn double(n: Number) -> f64 {
    f64::from_bits(n.bits)
}

impl Numerics for Doubles {
    fn plus(&self, a: Number, b: Number) -> Number {
        number(double(a) + double(b))
    }
    fn minus(&self, a: Number, b: Number) -> Number {
        number(double(a) - double(b))
    }
    fn times(&self, a: Number, b: Number) -> Number {
        number(double(a) * double(b))
    }
    fn over(&self, a: Number, b: Number) -> Number {
        number(double(a) / double(b))
    }
    fn root(&self, a: Number) -> Number {
        number(double(a).sqrt())
    }
    fn count(&self, n: usize) -> Number {
        number(n as f64)
    }
    fn nearest(&self, a: Number) -> usize {
        double(a).round() as usize
    }
    fn parse(&self, text: &str) -> Option<Number> {
        text.parse::<f64>().ok().map(number)
    }
    fn show(&self, a: Number) -> String {
        format!("{}", double(a))
    }
    fn fixed(&self, a: Number, places: usize) -> String {
        format!("{:.*}", places, double(a))
    }
    fn fixed_signed(&self, a: Number, places: usize) -> String {
        format!("{:+.*}", places, double(a))
    }
}

/// A daemon with its database and provider in memory.
struct World {
    /// Oldest first.
    ledger: Vec<TransactionRow>,
    prices: HashMap<String, PriceSnapshot>,
    providers: Providers,
    stored: Option<Config>,
    /// What the provider answers.
    feed: HashMap<String, Result<PriceSnapshot, String>>,
    fetched: Vec<String>,
    broken_cache: bool,
    broken_ledger: bool,
    broken_disk: bool,
}

fn world() -> World {
    World {
        ledger: vec![],
        prices: HashMap::new(),
        providers: Providers::new(Config::default()),
        stored: None,
        feed: HashMap::new(),
        fetched: vec![],
        broken_cache: false,
        broken_ledger: false,
        broken_disk: false,
    }
}

const TODAY: &str = "2026-05-26";

fn snapshot(ticker: &str, price: f64, day: &str) -> PriceSnapshot {
    PriceSnapshot {
        ticker: ticker.to_string(),
        current_price: number(price),
        points: vec![],
        fetched_on: day.to_string(),
    }
}

impl World {
    fn configured(mut self) -> World {
        self.providers = Providers::new(Config {
            provider: Some("alphavantage".to_string()),
            api_key: Some(SecretString::new("KEY")),
        });
        self
    }

    fn seed_price(&mut self, ticker: &str, price: f64, day: &str) {
        self.prices.insert(ticker.to_string(), snapshot(ticker, price, day));
    }

    fn insert(&mut self, ticker: &str, shares: f64, price: f64) {
        self.ledger.push(TransactionRow {
            id: self.ledger.len() as i64 + 1,
            ticker: ticker.to_string(),
            shares: number(shares),
            price: number(price),
            txn_date: TODAY.to_string(),
        });
    }

    fn transactions(&self, ticker: Option<&str>) -> Vec<TransactionRow> {
        let mut rows: Vec<TransactionRow> = self
            .ledger
            .iter()
            .filter(|r| ticker.is_none() || ticker == Some(r.ticker.as_str()))
            .cloned()
            .collect();
        rows.reverse();
        rows
    }

    fn held(&self) -> Vec<String> {
        let mut sums: BTreeMap<String, f64> = BTreeMap::new();
        for r in &self.ledger {
            *sums.entry(r.ticker.clone()).or_insert(0.0) += double(r.shares);
        }
        sums.into_iter().filter(|(_, s)| *s > 1e-9).map(|(t, _)| t).collect()
    }

    fn price(&self, ticker: &str) -> Result<Option<PriceSnapshot>, String> {
        if self.broken_cache {
            return Err("cache is corrupt".to_string());
        }
        Ok(self.prices.get(ticker).cloned())
    }

    fn finish(&mut self, start: Action) -> Response {
        let mut action = start;
        loop {
            action = match action {
                Action::Reply(r) => return r,
                Action::ReadConfig(q) => q.answer(&self.providers),
                Action::ReloadConfig(q) => {
                    let config = Config::load(self.stored.clone(), None, None);
                    self.providers = Providers::new(config);
                    q.answer(&self.providers)
                }
                Action::SaveConfig(s) => {
                    if self.broken_disk {
                        s.answer(Err("disk full".to_string()))
                    } else {
                        self.stored = Some(s.config.clone());
                        s.answer(Ok(()))
                    }
                }
                Action::ClearConfig(c) => {
                    if self.broken_disk {
                        c.answer(Config::clear("/c", Removal::Failed))
                    } else {
                        self.stored = None;
                        c.answer(Config::clear("/c", Removal::Removed))
                    }
                }
                Action::ReadLedger(q) => {
                    let rows = self.transactions(q.ticker.as_deref());
                    if self.broken_ledger {
                        q.answer(&Doubles, Err("ledger is corrupt".to_string()))
                    } else {
                        q.answer(&Doubles, Ok(rows))
                    }
                }
                Action::ReadPrice(q) => {
                    let found = self.price(&q.ticker);
                    q.answer(found)
                }
                Action::ReadRefreshDay(r) => {
                    let day = self.prices.values().map(|p| p.fetched_on.clone()).max();
                    r.answer(&Doubles, Ok(day))
                }
                Action::ReadHeld(h) => {
                    let held = self.held();
                    h.answer(Ok(held), TODAY.to_string())
                }
                Action::ReadUpdated(s) => {
                    let ticker = s.tickers[s.next].clone();
                    let day = self.prices.get(&ticker).map(|p| p.fetched_on.clone());
                    s.answer(day)
                }
                Action::Fetch(f) => {
                    assert_eq!(f.source.id(), "alphavantage");
                    self.fetched.push(f.ticker.clone());
                    let answer = self
                        .feed
                        .get(&f.ticker)
                        .cloned()
                        .unwrap_or(Err("no such symbol".to_string()));
                    f.answer(answer)
                }
                Action::StorePrice(s) => {
                    if self.broken_cache {
                        s.answer(Err("cache is corrupt".to_string()))
                    } else {
                        self.prices.insert(s.snapshot.ticker.clone(), s.snapshot.clone());
                        s.answer(Ok(()))
                    }
                }
                Action::InsertTrade(t) => {
                    if self.broken_ledger {
                        t.answer(Err("ledger is corrupt".to_string()))
                    } else {
                        self.insert(&t.ticker, double(t.shares), double(t.price));
                        t.answer(Ok(()))
                    }
                }
            };
        }
    }

    fn ask(&mut self, req: Request) -> Response {
        self.finish(dispatch(req))
    }

    fn refusal(&mut self, req: Request) -> String {
        match self.ask(req) {
            Response::Error { message } => message,
            other => panic!("expected an error, got {other:?}"),
        }
    }

    fn accepts(&mut self, req: Request) {
        let resp = self.ask(req);
        assert!(matches!(resp, Response::Done), "got: {resp:?}");
    }
}

fn buy(ticker: &str, shares: f64, price: Option<f64>) -> Request {
    Request::Buy { ticker: ticker.to_string(), shares: number(shares), price: price.map(number) }
}

fn sell(ticker: &str, shares: f64) -> Request {
    Request::Sell { ticker: ticker.to_string(), shares: number(shares) }
}

#[test]
fn validate_ticker_accepts_plausible_symbols() {
    assert!(validate_ticker("AAPL").is_ok());
    assert!(validate_ticker("BRK-B").is_ok());
    assert!(validate_ticker("BF.B").is_ok());
}

#[test]
fn validate_ticker_rejects_injection_attempts_and_junk() {
    assert!(validate_ticker("").is_err());
    assert!(validate_ticker("AAPL&foo=bar").is_err());
    assert!(validate_ticker("AAPL?range=1d").is_err());
    assert!(validate_ticker("../etc/passwd").is_err());
    assert!(validate_ticker("AAAAAAAAAAA").is_err(), "over length limit");
    assert!(validate_ticker("AAAAAAAAAA").is_ok());
    assert!(validate_ticker("É").is_err());
    assert_eq!(validate_ticker("A B").unwrap_err(), "invalid ticker \"A B\"");
}

#[test]
fn validate_shares_accepts_strictly_positive_finite() {
    assert!(validate_shares(number(10.0)).is_ok());
    assert!(validate_shares(number(0.1)).is_ok());
    assert!(validate_shares(number(f64::MIN_POSITIVE)).is_ok());
}

#[test]
fn validate_shares_rejects_zero_and_negative() {
    assert!(validate_shares(number(0.0)).is_err());
    assert!(validate_shares(number(-1.0)).is_err());
    assert_eq!(validate_shares(number(-0.0)).unwrap_err(), "shares must be positive");
}

#[test]
fn validate_shares_rejects_nan_and_infinities() {
    assert!(validate_shares(number(f64::NAN)).is_err());
    assert!(validate_shares(number(f64::INFINITY)).is_err());
    assert!(validate_shares(number(f64::NEG_INFINITY)).is_err());
    assert_eq!(
        validate_shares(number(f64::NAN)).unwrap_err(),
        "shares must be a finite number"
    );
}

#[test]
fn validate_price_rejects_zero_negative_nan_inf() {
    assert!(validate_price_override(number(0.0)).is_err());
    assert!(validate_price_override(number(-50.0)).is_err());
    assert!(validate_price_override(number(f64::NAN)).is_err());
    assert!(validate_price_override(number(f64::INFINITY)).is_err());
    assert!(validate_price_override(number(100.0)).is_ok());
    assert_eq!(validate_price_override(number(0.0)).unwrap_err(), "price must be positive");
}

#[test]
fn sell_without_cached_price_returns_error_and_inserts_nothing() {
    let mut w = world();
    w.insert("AAPL", 5.0, 100.0);
    assert_eq!(
        w.refusal(sell("AAPL", 1.0)),
        "no cached price for AAPL — run `tickerctl refresh` and retry"
    );
    let txns = w.transactions(None);
    assert_eq!(txns.len(), 1, "Sell must not have appended a $0 row; got {txns:?}");
    assert_eq!(double(txns[0].shares), 5.0);
}

#[test]
fn buy_rejects_nan_shares() {
    let mut w = world();
    w.seed_price("AAPL", 100.0, TODAY);
    w.refusal(buy("AAPL", f64::NAN, None));
    let txns = w.transactions(None);
    assert!(txns.is_empty(), "NaN buy must not reach the ledger; got {txns:?}");
}

#[test]
fn buy_rejects_inf_shares() {
    let mut w = world();
    w.seed_price("AAPL", 100.0, TODAY);
    w.refusal(buy("AAPL", f64::INFINITY, None));
    assert!(w.transactions(None).is_empty());
}

#[test]
fn buy_rejects_negative_price_override() {
    let mut w = world();
    w.seed_price("AAPL", 100.0, TODAY);
    w.refusal(buy("AAPL", 10.0, Some(-50.0)));
    assert!(w.transactions(None).is_empty());
}

#[test]
fn buy_rejects_nan_price_override() {
    let mut w = world();
    w.seed_price("AAPL", 100.0, TODAY);
    w.refusal(buy("AAPL", 10.0, Some(f64::NAN)));
    assert!(w.transactions(None).is_empty());
}

#[test]
fn sell_rejects_nan_shares() {
    let mut w = world();
    w.insert("AAPL", 5.0, 100.0);
    w.seed_price("AAPL", 110.0, TODAY);
    w.refusal(sell("AAPL", f64::NAN));
    assert_eq!(w.transactions(None).len(), 1, "only the original buy should remain");
}

#[test]
fn transactions_filter_matches_lowercase_input_against_uppercase_storage() {
    let mut w = world();
    w.seed_price("AAPL", 100.0, TODAY);
    w.accepts(buy("aapl", 1.0, Some(100.0)));
    match w.ask(Request::Transactions { ticker: Some("aapl".to_string()) }) {
        Response::Transactions { rows } => {
            assert_eq!(rows.len(), 1, "lowercase filter must match uppercase storage; got {rows:?}");
            assert_eq!(rows[0].ticker, "AAPL");
        }
        other => panic!("expected Transactions, got {other:?}"),
    }
    match w.ask(Request::Transactions { ticker: Some("ibm".to_string()) }) {
        Response::Transactions { rows } => assert!(rows.is_empty()),
        other => panic!("expected Transactions, got {other:?}"),
    }
    assert_eq!(
        w.refusal(Request::Transactions { ticker: Some("?".to_string()) }),
        "invalid ticker \"?\""
    );
}

#[test]
fn a_buy_fills_at_the_override_or_the_cached_close() {
    let mut w = world();
    w.seed_price("AAPL", 100.0, TODAY);
    w.accepts(buy("AAPL", 2.0, Some(90.0)));
    w.accepts(buy("AAPL", 3.0, None));
    let prices: Vec<f64> = w.ledger.iter().map(|r| double(r.price)).collect();
    assert_eq!(prices, vec![90.0, 100.0]);
    assert!(w.fetched.is_empty());
}

#[test]
fn a_buy_of_an_uncached_ticker_fetches_it_first() {
    let mut w = world().configured();
    w.feed.insert("IBM".to_string(), Ok(snapshot("IBM", 42.0, TODAY)));
    w.accepts(buy("ibm", 1.0, None));
    assert_eq!(w.fetched, vec!["IBM"]);
    assert_eq!(double(w.ledger[0].price), 42.0);
    assert_eq!(double(w.prices["IBM"].current_price), 42.0);

    assert_eq!(w.refusal(buy("XYZ", 1.0, None)), "no such symbol");
    assert_eq!(w.ledger.len(), 1);
}

#[test]
fn without_a_provider_an_uncached_ticker_is_refused() {
    let mut w = world();
    let none = "no price data provider is configured — run `tickerctl provider set` to choose one";
    assert_eq!(w.refusal(buy("IBM", 1.0, None)), none);
    assert_eq!(w.refusal(Request::History { ticker: "IBM".to_string() }), none);
    assert_eq!(w.refusal(Request::RefreshTicker { ticker: "IBM".to_string() }), none);
    assert_eq!(w.refusal(Request::Refresh { force: false }), none);
    assert!(w.fetched.is_empty() && w.ledger.is_empty());
}

#[test]
fn a_sell_fills_at_the_cached_close_and_within_the_holding() {
    let mut w = world();
    w.insert("AAPL", 5.0, 100.0);
    w.seed_price("AAPL", 110.0, TODAY);
    assert_eq!(w.refusal(sell("AAPL", 5.5)), "only holding 5 of AAPL");
    assert_eq!(w.refusal(sell("IBM", 1.0)), "only holding 0 of IBM");
    assert_eq!(w.ledger.len(), 1);
    w.accepts(sell("aapl", 5.0));
    assert_eq!(double(w.ledger[1].shares), -5.0);
    assert_eq!(double(w.ledger[1].price), 110.0);
    assert!(w.held().is_empty());
}

#[test]
fn a_sell_may_exceed_the_holding_by_dust() {
    let mut w = world();
    w.insert("AAPL", 1.0, 100.0);
    w.seed_price("AAPL", 110.0, TODAY);
    w.accepts(sell("AAPL", 1.0 + 5e-10));
}

#[test]
fn ping_summary_and_holdings_are_answered() {
    let mut w = world();
    assert!(matches!(w.ask(Request::Ping), Response::Pong));
    w.insert("AAPL", 1.0, 100.0);
    w.insert("IBM", 2.0, 10.0);
    w.seed_price("AAPL", 10.0, "2026-05-20");
    w.seed_price("IBM", 30.0, "2026-05-21");
    match w.ask(Request::Summary) {
        Response::Summary(s) => {
            assert_eq!(s.last_refresh.as_deref(), Some("2026-05-21"));
            assert_eq!(double(s.total_value), 70.0);
            assert_eq!(s.rows[0].ticker, "IBM");
            assert_eq!(s.rows[1].last_updated, "2026-05-20");
        }
        other => panic!("{other:?}"),
    }
    match w.ask(Request::Holdings) {
        Response::Holdings { rows } => assert_eq!(rows.len(), 2),
        other => panic!("{other:?}"),
    }
    w.broken_cache = true;
    assert_eq!(w.refusal(Request::Summary), "cache is corrupt");
    w.broken_ledger = true;
    assert_eq!(w.refusal(Request::Holdings), "ledger is corrupt");
}

#[test]
fn a_history_is_read_from_the_cache_or_fetched() {
    let mut w = world().configured();
    w.seed_price("AAPL", 10.0, "2026-05-20");
    match w.ask(Request::History { ticker: "aapl".to_string() }) {
        Response::History(h) => assert_eq!(h.ticker, "AAPL"),
        other => panic!("{other:?}"),
    }
    assert!(w.fetched.is_empty());
    w.feed.insert("IBM".to_string(), Ok(snapshot("IBM", 42.0, TODAY)));
    match w.ask(Request::History { ticker: "IBM".to_string() }) {
        Response::History(h) => assert_eq!(double(h.current_price), 42.0),
        other => panic!("{other:?}"),
    }
    assert_eq!(w.fetched, vec!["IBM"]);
    w.feed.insert("ODD".to_string(), Ok(snapshot("EVEN", 1.0, TODAY)));
    assert_eq!(w.refusal(Request::History { ticker: "ODD".to_string() }), "no data for ODD");
    assert_eq!(w.refusal(Request::History { ticker: "../x".to_string() }), "invalid ticker \"../X\"");
    w.broken_cache = true;
    assert_eq!(w.refusal(Request::History { ticker: "IBM".to_string() }), "db: cache is corrupt");
}

#[test]
fn a_refresh_fetches_what_does_not_have_todays_close() {
    let mut w = world().configured();
    for t in ["AAA", "BBB", "CCC"] {
        w.insert(t, 1.0, 1.0);
        w.feed.insert(t.to_string(), Ok(snapshot(t, 2.0, TODAY)));
    }
    w.seed_price("AAA", 1.0, TODAY);
    w.seed_price("BBB", 1.0, "2026-05-25");
    w.accepts(Request::Refresh { force: false });
    assert_eq!(w.fetched, vec!["BBB", "CCC"]);
    w.fetched.clear();
    w.accepts(Request::Refresh { force: false });
    assert!(w.fetched.is_empty());
    w.accepts(Request::Refresh { force: true });
    assert_eq!(w.fetched, vec!["AAA", "BBB", "CCC"]);
}

#[test]
fn a_refresh_goes_on_past_failures_and_names_them() {
    let mut w = world().configured();
    for t in ["AAA", "BBB", "CCC"] {
        w.insert(t, 1.0, 1.0);
    }
    w.feed.insert("BBB".to_string(), Ok(snapshot("BBB", 2.0, TODAY)));
    assert_eq!(
        w.refusal(Request::Refresh { force: false }),
        "AAA: no such symbol; CCC: no such symbol"
    );
    assert_eq!(double(w.prices["BBB"].current_price), 2.0);
    w.broken_cache = true;
    assert_eq!(
        w.refusal(Request::Refresh { force: true }),
        "AAA: no such symbol; BBB: cache is corrupt; CCC: no such symbol"
    );
}

#[test]
fn one_ticker_can_be_refreshed_held_or_not() {
    let mut w = world().configured();
    w.feed.insert("IBM".to_string(), Ok(snapshot("IBM", 42.0, TODAY)));
    w.accepts(Request::RefreshTicker { ticker: "ibm".to_string() });
    assert_eq!(w.refusal(Request::RefreshTicker { ticker: "X".to_string() }), "no such symbol");
    w.broken_cache = true;
    assert_eq!(
        w.refusal(Request::RefreshTicker { ticker: "IBM".to_string() }),
        "db: cache is corrupt"
    );
}

#[test]
fn a_stale_check_is_quiet_without_holdings_and_sweeps_with_them() {
    let mut w = world();
    let today = || TODAY.to_string();
    let bare = refresh_stale(Ok(vec![]), &w.providers, today());
    assert!(matches!(bare, StaleCheck::Idle));
    let skipped = refresh_stale(Ok(vec!["AAA".to_string()]), &w.providers, today());
    assert!(matches!(skipped, StaleCheck::Skipped(why) if why.starts_with("no price data")));
    let unlisted = refresh_stale(Err("e".to_string()), &w.providers, today());
    assert!(matches!(unlisted, StaleCheck::Unlisted(e) if e == "e"));

    w = w.configured();
    w.seed_price("AAA", 1.0, TODAY);
    w.feed.insert("BBB".to_string(), Ok(snapshot("BBB", 2.0, TODAY)));
    let held = vec!["AAA".to_string(), "BBB".to_string()];
    match refresh_stale(Ok(held), &w.providers, today()) {
        StaleCheck::Sweep(action) => {
            assert!(matches!(w.finish(action), Response::Done));
        }
        other => panic!("{other:?}"),
    }
    assert_eq!(w.fetched, vec!["BBB"]);
}

#[test]
fn choosing_a_provider_stores_it_and_reports_no_key() {
    let mut w = world();
    let set = |provider: &str, key: Option<&str>| Request::SetProvider {
        provider: provider.to_string(),
        api_key: key.map(SecretString::new),
    };
    assert_eq!(w.refusal(set("nope", Some("k"))), "unknown provider \"nope\"");
    assert_eq!(w.refusal(set("alphavantage", None)), "Alpha Vantage requires an API key");
    assert_eq!(w.refusal(set("alphavantage", Some(""))), "Alpha Vantage requires an API key");
    assert!(w.stored.is_none());
    match w.ask(set("alphavantage", Some("SECRET"))) {
        Response::ProviderStatus(st) => {
            assert!(st.ready && st.key_configured);
            assert!(!format!("{st:?}").contains("SECRET"));
        }
        other => panic!("{other:?}"),
    }
    let stored = w.stored.clone().unwrap();
    assert_eq!(stored.provider.as_deref(), Some("alphavantage"));
    assert_eq!(stored.api_key.unwrap().expose_secret(), "SECRET");

    match w.ask(Request::ClearProvider) {
        Response::ProviderStatus(st) => assert!(st.selected.is_none() && !st.key_configured),
        other => panic!("{other:?}"),
    }
    match w.ask(Request::ProviderStatus) {
        Response::ProviderStatus(st) => assert!(!st.ready),
        other => panic!("{other:?}"),
    }
    w.broken_disk = true;
    assert_eq!(
        w.refusal(set("alphavantage", Some("k"))),
        "saving credentials: disk full"
    );
    assert_eq!(w.refusal(Request::ClearProvider), "clearing credentials: removing /c");
}

#[test]
fn blank_lines_are_passed_over_and_unreadable_ones_refused() {
    assert!(handle(" \t\r\n", Ok(Request::Ping)).is_none());
    assert!(matches!(
        handle("{}", Ok(Request::Ping)),
        Some(Action::Reply(Response::Pong))
    ));
    match handle("{", Err("EOF".to_string())) {
        Some(Action::Reply(Response::Error { message })) => {
            assert_eq!(message, "bad request: EOF")
        }
        other => panic!("{other:?}"),
    }
}
