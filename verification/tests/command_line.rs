use paperticker::cli::{
    print_human, raw_exit_code, request_for, Command, Outcome, ProviderCommand,
};
use paperticker::number::{Number, Numerics};
use paperticker::proto::{
    BandPoint, HistoryPoint, HoldingRow, PortfolioSummary, Request, Response, TickerHistory,
    TransactionRow,
};
use paperticker::provider::{catalog, lookup, ProviderStatus};
use paperticker::provider_cmd::{
    build_set_request, key_notice, key_prompt, list_lines, menu_lines, menu_prompt, named_provider,
    pick, status_lines, Choice,
};

/// Double arithmetic, as the machine has it.
struct Doubles;

fn number(x: f64) -> Number {
    Number::from_bits(x.to_bits())
}

fn double(n: Number) -> f64 {
    f64::from_bits(n.bits)
}

impl Numerics for Doubles {
    fn plus(&self, a: Number, b: Number) -> Number {
        number(double(a) + double(b))
    }
    fn minus(&self, a: Number, b: Number) -> Number {
        number(double(a) - double(b))
    }
    fn times(&self, a: Number, b: Number) -> Number {
        number(double(a) * double(b))
    }
    fn over(&self, a: Number, b: Number) -> Number {
        number(double(a) / double(b))
    }
    fn root(&self, a: Number) -> Number {
        number(double(a).sqrt())
    }
    fn count(&self, n: usize) -> Number {
        number(n as f64)
    }
    fn nearest(&self, a: Number) -> usize {
        double(a).round() as usize
    }
    fn parse(&self, text: &str) -> Option<Number> {
        text.parse::<f64>().ok().map(number)
    }
    fn show(&self, a: Number) -> String {
        format!("{}", double(a))
    }
    fn fixed(&self, a: Number, places: usize) -> String {
        format!("{:.*}", places, double(a))
    }
    fn fixed_signed(&self, a: Number, places: usize) -> String {
        format!("{:+.*}", places, double(a))
    }
}

fn told(cmd: Command, resp: Response) -> Vec<String> {
    match print_human(&Doubles, &cmd, &resp) {
        Outcome::Said { lines } => lines,
        other => panic!("{other:?}"),
    }
}

#[test]
fn commands_become_requests() {
    assert!(matches!(request_for(&Command::Ping), Some(Request::Ping)));
    assert!(matches!(
        request_for(&Command::Buy {
            ticker: "aapl".to_string(),
            shares: number(2.0),
            price: Some(number(3.0)),
        }),
        Some(Request::Buy { ticker, shares, price: Some(p) })
            if ticker == "aapl" && double(shares) == 2.0 && double(p) == 3.0
    ));
    assert!(matches!(
        request_for(&Command::Refresh { force: true }),
        Some(Request::Refresh { force: true })
    ));
    for cmd in [ProviderCommand::Status, ProviderCommand::List] {
        assert!(matches!(
            request_for(&Command::Provider(cmd)),
            Some(Request::ProviderStatus)
        ));
    }
    assert!(matches!(
        request_for(&Command::Provider(ProviderCommand::Clear)),
        Some(Request::ClearProvider)
    ));
    assert!(request_for(&Command::Provider(ProviderCommand::Choose)).is_none());
}

#[test]
fn exit_codes_tell_which_half_to_look_at() {
    let refused = Response::Error { message: "only holding 5 of AAPL".to_string() };
    let outcome = print_human(&Doubles, &Command::Ping, &refused);
    assert_eq!(outcome.exit_code(), 1);
    assert!(matches!(outcome, Outcome::Refused { message } if message == "only holding 5 of AAPL"));
    let odd = print_human(&Doubles, &Command::Summary, &Response::Pong);
    assert_eq!(odd.exit_code(), 2);
    let bare = TickerHistory {
        ticker: "AAPL".to_string(),
        current_price: number(2.0),
        last_updated: "2026-05-25".to_string(),
        points: vec![
            HistoryPoint { date: "2026-05-24".to_string(), close: number(1.0) },
            HistoryPoint { date: "2026-05-25".to_string(), close: number(2.0) },
        ],
        bands: vec![],
        holding: None,
    };
    let stray = print_human(&Doubles, &Command::Ping, &Response::History(bare));
    assert_eq!(stray.exit_code(), 2);
    let fine = print_human(&Doubles, &Command::Ping, &Response::Pong);
    assert_eq!(fine.exit_code(), 0);
    assert_eq!(raw_exit_code(&refused), 1);
    assert_eq!(raw_exit_code(&Response::Pong), 0);
    assert_eq!(told(Command::Ping, Response::Pong), vec!["pong"]);
}

#[test]
fn trades_and_refreshes_are_confirmed() {
    let buy = |price: Option<f64>| Command::Buy {
        ticker: "aapl".to_string(),
        shares: number(1.5),
        price: price.map(number),
    };
    assert_eq!(
        told(buy(Some(10.0)), Response::Done),
        vec!["ok — bought 1.5 AAPL @ $10.00 (simulated)"]
    );
    assert_eq!(
        told(buy(None), Response::Done),
        vec!["ok — bought 1.5 AAPL @ today's close (simulated)"]
    );
    let sell = Command::Sell { ticker: "ibm".to_string(), shares: number(2.0) };
    assert_eq!(
        told(sell, Response::Done),
        vec!["ok — sold 2 IBM @ today's close (simulated)"]
    );
    assert_eq!(
        told(Command::Refresh { force: true }, Response::Done),
        vec!["ok — every held ticker re-fetched"]
    );
    assert_eq!(
        told(Command::Refresh { force: false }, Response::Done),
        vec!["ok — held tickers without today's close refreshed"]
    );
}

fn holding(updated: &str, gain: f64) -> HoldingRow {
    HoldingRow {
        ticker: "AAPL".to_string(),
        shares: number(1.5),
        avg_cost: number(10.0),
        current_price: number(12.0),
        value: number(18.0),
        cost_basis: number(15.0),
        gain: number(gain),
        gain_pct: number(20.0),
        weight: number(100.0),
        last_updated: updated.to_string(),
    }
}

#[test]
fn a_summary_lists_totals_and_holdings() {
    let s = PortfolioSummary {
        total_value: number(18.0),
        total_cost: number(15.0),
        total_gain: number(3.0),
        total_gain_pct: number(20.0),
        last_refresh: Some("2026-05-25".to_string()),
        rows: vec![holding("2026-05-25", 3.0), holding("2026-05-20", -3.0)],
    };
    assert_eq!(
        told(Command::Summary, Response::Summary(s)),
        vec![
            "Portfolio summary (last refresh 2026-05-25)",
            "  Value:  $18.00",
            "  Cost:   $15.00",
            "  Gain:   +$3.00 (+20.00%)",
            "",
            "Ticker       Shares   Avg Cost      Price        Value  Weight         Gain    Return  Updated",
            "AAPL         1.5000     $10.00     $12.00       $18.00  100.0%       +$3.00    20.00%  —",
            "AAPL         1.5000     $10.00     $12.00       $18.00  100.0%       $-3.00    20.00%  2026-05-20",
        ]
    );
    let empty = PortfolioSummary {
        total_value: number(0.0),
        total_cost: number(1.0),
        total_gain: number(-1.0),
        total_gain_pct: number(-100.0),
        last_refresh: None,
        rows: vec![],
    };
    assert_eq!(
        told(Command::Summary, Response::Summary(empty)),
        vec![
            "Portfolio summary (last refresh never)",
            "  Value:  $0.00",
            "  Cost:   $1.00",
            "  Gain:   $-1.00 (-100.00%)",
            "",
            "No holdings.",
        ]
    );
    let rows = vec![holding("2026-05-25", 3.0)];
    let lines = told(Command::Holdings, Response::Holdings { rows });
    assert!(lines[1].ends_with("2026-05-25"));
}

#[test]
fn a_history_lists_the_last_ten_days() {
    let points = |n: usize| {
        (0..n)
            .map(|i| HistoryPoint { date: format!("2026-05-{:02}", i + 1), close: number(i as f64) })
            .collect::<Vec<_>>()
    };
    let bands = |n: usize| {
        (0..n)
            .map(|i| BandPoint {
                sma: if i > 10 { Some(number(1.0)) } else { None },
                upper: None,
                lower: None,
            })
            .collect::<Vec<_>>()
    };
    let h = |n: usize, held: bool| {
        Response::History(TickerHistory {
            ticker: "AAPL".to_string(),
            current_price: number(12.0),
            last_updated: "2026-05-25".to_string(),
            points: points(n),
            bands: bands(n),
            holding: if held { Some(holding("2026-05-25", 3.0)) } else { None },
        })
    };
    let cmd = || Command::History { ticker: "aapl".to_string() };
    let lines = told(cmd(), h(12, true));
    assert_eq!(lines[0], "AAPL — current $12.00 (cached 2026-05-25)");
    assert_eq!(
        lines[1],
        "Holding: 1.5000 sh, avg $10.00, value $18.00, gain +$3.00 (+20.00%)"
    );
    assert_eq!(lines[2], "History: 12 daily closes from 2026-05-01 to 2026-05-12");
    assert_eq!(lines[3], "");
    assert_eq!(lines[4], "Date             Close   SMA(20)     Upper     Lower");
    assert_eq!(lines.len(), 15);
    assert_eq!(lines[5], "2026-05-03        2.00         —         —         —");
    assert_eq!(lines[14], "2026-05-12       11.00      1.00         —         —");

    assert_eq!(
        told(cmd(), h(1, false)),
        vec![
            "AAPL — current $12.00 (cached 2026-05-25)",
            "History: 1 daily closes from 2026-05-01 to 2026-05-01",
        ]
    );
    assert_eq!(told(cmd(), h(0, false))[1], "History: 0 daily closes from ? to ?");
}

#[test]
fn transactions_are_listed_with_their_totals() {
    let t = |shares: f64| TransactionRow {
        id: 1,
        ticker: "IBM".to_string(),
        shares: number(shares),
        price: number(10.5),
        txn_date: "2026-05-25".to_string(),
    };
    let cmd = |ticker: Option<&str>| Command::Transactions { ticker: ticker.map(str::to_string) };
    assert_eq!(
        told(cmd(None), Response::Transactions { rows: vec![t(2.0), t(-2.0)] }),
        vec![
            "Date         Ticker       Shares      Price          Total",
            "2026-05-25   IBM         +2.0000     $10.50        +$21.00",
            "2026-05-25   IBM         -2.0000     $10.50        $-21.00",
        ]
    );
    assert_eq!(
        told(cmd(None), Response::Transactions { rows: vec![] }),
        vec!["No transactions."]
    );
    assert_eq!(
        told(cmd(Some("ibm")), Response::Transactions { rows: vec![] }),
        vec!["No transactions for ibm."]
    );
}

fn status(known: bool, unavailable: Option<&str>, key: bool, ready: bool) -> ProviderStatus {
    ProviderStatus {
        selected: if known { lookup("alphavantage") } else { None },
        unavailable: unavailable.map(str::to_string),
        key_configured: key,
        ready,
        available: catalog(),
    }
}

#[test]
fn the_status_of_the_provider_is_put_out() {
    assert_eq!(
        status_lines(&status(true, None, false, false)),
        vec![
            "provider:  Alpha Vantage",
            "api key:   not set",
            "ready:     no",
            "",
            "Set the key with: tickerctl provider set alphavantage",
        ]
    );
    assert_eq!(
        status_lines(&status(true, None, true, true)),
        vec!["provider:  Alpha Vantage", "api key:   configured", "ready:     yes"]
    );
    let mut keyless = status(true, None, false, true);
    keyless.selected.as_mut().unwrap().requires_key = false;
    assert_eq!(status_lines(&keyless)[1], "api key:   not required");
    assert_eq!(
        status_lines(&status(false, None, false, false)),
        vec![
            "provider: none configured",
            "",
            "No prices will be fetched until you choose one:",
            "  tickerctl provider set",
        ]
    );
    assert_eq!(
        status_lines(&status(false, Some("unknown provider \"x\""), false, false))[0],
        "provider: unavailable — unknown provider \"x\""
    );
    let set = Command::Provider(ProviderCommand::Choose);
    let lines = told(set, Response::ProviderStatus(status(true, None, true, true)));
    assert_eq!(lines[..3], ["ok — provider configured", "", "provider:  Alpha Vantage"]);
    let clear = Command::Provider(ProviderCommand::Clear);
    let lines = told(clear, Response::ProviderStatus(status(false, None, false, false)));
    assert_eq!(lines[0], "ok — provider cleared, stored key erased");
}

#[test]
fn the_list_marks_what_is_selected() {
    let lines = list_lines(&status(true, None, true, true));
    assert_eq!(lines[0], "* alphavantage   Alpha Vantage");
    assert_eq!(
        lines[2],
        "    Needs a free API key: https://www.alphavantage.co/support/#api-key"
    );
    assert_eq!(lines[3..], ["", "* = currently selected"]);
    let mut none = status(false, None, false, false);
    none.available[0].signup_url = None;
    let lines = list_lines(&none);
    assert!(lines[0].starts_with("  alphavantage "));
    assert_eq!(lines[2], "    No API key needed.");
    assert_eq!(lines[4], "None selected. Choose one with: tickerctl provider set");
}

#[test]
fn a_provider_is_named_or_picked_from_the_menu() {
    assert!(matches!(
        named_provider(Some("alphavantage"), false),
        Choice::Entry(p) if p.id == "alphavantage"
    ));
    assert!(matches!(
        named_provider(Some("x"), true),
        Choice::Refused(why) if why == "unknown provider \"x\" — available: alphavantage"
    ));
    assert!(matches!(named_provider(None, true), Choice::Menu));
    assert!(matches!(
        named_provider(None, false),
        Choice::Refused(why)
            if why == "no provider given and stdin is not a terminal — pass one of: alphavantage"
    ));
    let menu = menu_lines();
    assert_eq!(menu[0], "Choose a price data provider:");
    assert_eq!(menu[2], "  1) Alpha Vantage");
    assert_eq!(menu.len(), 6);
    assert_eq!(menu_prompt(), "Number [1-1]: ");
    assert_eq!(pick(" 1\n").unwrap().id, "alphavantage");
    assert_eq!(pick("0").unwrap_err(), "choice must be 1 or greater");
    assert_eq!(pick("2").unwrap_err(), "no such choice: 2");
    assert_eq!(pick("two\n").unwrap_err(), "not a number: \"two\"");
}

#[test]
fn a_key_is_trimmed_and_must_not_be_blank() {
    let info = || lookup("alphavantage").unwrap();
    match build_set_request(info(), "  KEY\n").unwrap() {
        Request::SetProvider { provider, api_key } => {
            assert_eq!(provider, "alphavantage");
            assert_eq!(api_key.unwrap().expose_secret(), "KEY");
        }
        other => panic!("{other:?}"),
    }
    assert_eq!(
        build_set_request(info(), " \n").unwrap_err(),
        "no key entered — provider unchanged"
    );
    let mut free = info();
    free.requires_key = false;
    assert!(matches!(
        build_set_request(free, "KEY").unwrap(),
        Request::SetProvider { api_key: None, .. }
    ));
    assert_eq!(
        key_notice(&info()).unwrap(),
        "\nAlpha Vantage needs an API key. Get one at:\n  https://www.alphavantage.co/support/#api-key\n"
    );
    assert_eq!(key_prompt(&info()), "Alpha Vantage API key (input hidden): ");
}
