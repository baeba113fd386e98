use std::time::Duration;

use paperticker::alphavantage::{
    by_date, interval_from_rpm, pacing, AlphaVantage, Bar, Envelope, Reply, ENDPOINT,
};
use paperticker::number::{Number, Numerics};
use paperticker::secret::SecretString;
use paperticker::text::truncate;
use paperticker::throttle::Throttle;

/// Double arithmetic, as the machine has it.
struct Doubles;

fn number(x: f64) -> Number {
    Number::from_bits(x.to_bits())
}

fn double(n: Number) -> f64 {
    f64::from_bits(n.bits)
}

impl Numerics for Doubles {
    fn plus(&self, a: Number, b: Number) -> Number {
        number(double(a) + double(b))
    }
    fn minus(&self, a: Number, b: Number) -> Number {
        number(double(a) - double(b))
    }
    fn times(&self, a: Number, b: Number) -> Number {
        number(double(a) * double(b))
    }
    fn over(&self, a: Number, b: Number) -> Number {
        number(double(a) / double(b))
    }
    fn root(&self, a: Number) -> Number {
        number(double(a).sqrt())
    }
    fn count(&self, n: usize) -> Number {
        number(n as f64)
    }
    fn nearest(&self, a: Number) -> usize {
        double(a).round() as usize
    }
    fn parse(&self, text: &str) -> Option<Number> {
        text.parse::<f64>().ok().map(number)
    }
    fn show(&self, a: Number) -> String {
        format!("{}", double(a))
    }
    fn fixed(&self, a: Number, places: usize) -> String {
        format!("{:.*}", places, double(a))
    }
    fn fixed_signed(&self, a: Number, places: usize) -> String {
        format!("{:+.*}", places, double(a))
    }
}

fn interval(setting: Option<&str>) -> Option<Duration> {
    interval_from_rpm(setting).unwrap().map(Duration::from_nanos)
}

#[test]
fn the_default_is_the_free_tier_rate() {
    let d = interval(None).expect("paced by default");
    assert!(d >= Duration::from_secs(1), "default paces faster than 1/sec: {d:?}");
    assert_eq!(interval(Some("")), Some(d), "empty means unset");
    assert_eq!(interval(Some("60")), Some(d));
    assert_eq!(d, Duration::from_millis(1100));
}

#[test]
fn a_premium_rate_paces_proportionally_faster() {
    let free = interval(Some("60")).unwrap();
    let premium = interval(Some("600")).unwrap();
    assert!(premium < free);
    assert!((premium.as_secs_f64() * 10.0 - free.as_secs_f64()).abs() < 1e-9);
}

#[test]
fn pacing_can_be_turned_off_explicitly() {
    for off in ["off", "OFF", "unlimited", "Unlimited", "0", "  off  "] {
        assert_eq!(interval(Some(off)), None, "{off:?} should disable");
    }
}

#[test]
fn a_bad_setting_is_an_error_rather_than_no_limit() {
    for bad in ["fast", "-1", "1.5", "60rpm", "yes", "premium"] {
        let err = interval_from_rpm(Some(bad)).unwrap_err();
        assert!(err.contains("off"), "error should say what is accepted: {err}");
        let p = pacing(Some(bad));
        assert_eq!(p.interval, Some(1_100_000_000));
        assert_eq!(p.complaint, Some(err));
    }
    assert_eq!(
        interval_from_rpm(Some(" fast ")).unwrap_err(),
        "expected a requests-per-minute number or `off`, got \"fast\""
    );
}

#[test]
fn intervals_are_those_of_doubles() {
    let mut rates: Vec<u32> = (1..5_000).collect();
    // Where a half nanosecond is left over.
    for few in [1u64, 3, 11, 33] {
        for fives in 0..10u32 {
            let rate = 2_048 * few * 5u64.pow(fives);
            if let Ok(rate) = u32::try_from(rate) {
                rates.extend([rate - 1, rate, rate + 1]);
            }
        }
    }
    rates.extend((1..20_000u32).map(|i| i.wrapping_mul(2_654_435_761) | 1));
    for rate in rates {
        let expected = Duration::from_secs_f64(60.0 / f64::from(rate) * 1.1);
        assert_eq!(interval(Some(&rate.to_string())), Some(expected), "{rate}");
    }
    assert_eq!(interval_from_rpm(Some("2048")).unwrap(), Some(32_226_562));
    assert_eq!(interval_from_rpm(Some("10240")).unwrap(), Some(6_445_313));
}

#[test]
fn intervals_are_to_the_nanosecond() {
    assert_eq!(interval_from_rpm(Some("7")).unwrap(), Some(9_428_571_429));
    assert_eq!(interval_from_rpm(Some("+75")).unwrap(), Some(880_000_000));
    assert_eq!(interval_from_rpm(Some("4294967295")).unwrap(), Some(15));
    assert!(interval_from_rpm(Some("4294967296")).is_err());
    assert_eq!(pacing(Some("off")).interval, None);
    assert_eq!(pacing(None).interval, Some(1_100_000_000));
}

fn av(key: &str) -> AlphaVantage {
    AlphaVantage::new(SecretString::new(key))
}

#[test]
fn scrub_removes_the_key_from_error_text() {
    let p = av("SUPERSECRETKEY");
    let echoed = "Invalid API call with apikey=SUPERSECRETKEY, please retry";
    let out = p.scrub(echoed);
    assert!(!out.contains("SUPERSECRETKEY"), "key survived scrubbing: {out}");
    assert!(out.contains("[redacted]"));
}

#[test]
fn scrub_is_a_noop_without_a_key() {
    let p = av("");
    assert_eq!(p.scrub("nothing to redact"), "nothing to redact");
}

#[test]
fn err_body_truncates_and_scrubs_together() {
    let p = av("KEY123");
    let long = format!("KEY123 {}", "x".repeat(400));
    let out = p.err_body(&long);
    assert!(!out.contains("KEY123"));
    assert!(out.ends_with('…'));
    assert_eq!(out.len(), 203);
}

#[test]
fn scrubbing_takes_occurrences_from_the_left() {
    assert_eq!(av("aa").scrub("aaa aaaa"), "[redacted]a [redacted][redacted]");
    assert_eq!(av("K").scrub("KéK"), "[redacted]é[redacted]");
}

#[test]
fn truncate_does_not_panic_on_multibyte_boundary() {
    let mut s = "a".repeat(199);
    s.push('é');
    s.push_str(&"b".repeat(50));
    assert!(truncate(&s, 200).ends_with('…'));
    assert_eq!(truncate("héllo", 0), "…");
    assert_eq!(truncate("hello", 100), "hello");
    assert_eq!(truncate("héllo", 2), "h…");
    assert_eq!(truncate("héllo", 3), "hé…");
    assert_eq!(truncate("héllo", 6), "héllo");
}

#[test]
fn the_query_names_function_symbol_size_and_key() {
    let q: Vec<(String, String)> =
        av("K").query("AAPL").into_iter().map(|p| (p.name, p.value)).collect();
    let pair = |a: &str, b: &str| (a.to_string(), b.to_string());
    assert_eq!(
        q,
        vec![
            pair("function", "TIME_SERIES_DAILY"),
            pair("symbol", "AAPL"),
            pair("outputsize", "compact"),
            pair("apikey", "K"),
        ]
    );
    assert_eq!(ENDPOINT, "https://www.alphavantage.co/query");
}

fn bar(date: &str, close: &str) -> Bar {
    Bar { date: date.to_string(), close: close.to_string() }
}

fn envelope(series: Option<Vec<Bar>>) -> Envelope {
    Envelope { error_message: None, note: None, information: None, series }
}

fn received(code: u16, status: &str, body: &str, envelope: Option<Envelope>) -> Reply {
    Reply::Received { code, status: status.to_string(), body: body.to_string(), envelope }
}

#[test]
fn bars_are_put_in_order_of_their_dates() {
    let bars = vec![
        bar("2026-05-22", "3"),
        bar("2026-05-20", "1"),
        bar("2026-05-21", "2"),
        bar("2026-05-20", "9"),
    ];
    let sorted: Vec<(String, String)> =
        by_date(&bars).into_iter().map(|b| (b.date, b.close)).collect();
    let pair = |a: &str, b: &str| (a.to_string(), b.to_string());
    assert_eq!(
        sorted,
        vec![pair("2026-05-20", "9"), pair("2026-05-21", "2"), pair("2026-05-22", "3")]
    );
}

#[test]
fn a_series_becomes_a_snapshot_oldest_first() {
    let bars = vec![
        bar("2026-05-22", "30.5"),
        bar("2026-05-20", "10"),
        bar("2026-05-21", "oops"),
        bar("2026-05-19", "inf"),
    ];
    let reply = received(200, "200 OK", "…", Some(envelope(Some(bars))));
    let snap = av("K").fetch(&Doubles, "brk-b", &reply, "2026-05-23").unwrap();
    assert_eq!(snap.ticker, "BRK-B");
    assert_eq!(snap.fetched_on, "2026-05-23");
    assert_eq!(double(snap.current_price), 30.5);
    let points: Vec<(String, f64)> =
        snap.points.iter().map(|p| (p.date.clone(), double(p.close))).collect();
    assert_eq!(
        points,
        vec![("2026-05-20".to_string(), 10.0), ("2026-05-22".to_string(), 30.5)]
    );
}

#[test]
fn every_way_to_fail_says_so_without_the_key() {
    let fail = |reply: Reply| av("KEY").fetch(&Doubles, "AAPL", &reply, "d").unwrap_err();
    assert_eq!(fail(Reply::Unsent), "alphavantage request for AAPL");
    assert_eq!(fail(Reply::Unread), "reading alphavantage response for AAPL");
    assert_eq!(
        fail(received(404, "404 Not Found", "no KEY here", None)),
        "alphavantage returned 404 Not Found for AAPL: no [redacted] here"
    );
    assert_eq!(
        fail(received(299, "299", "<html>KEY", None)),
        "parsing alphavantage response for AAPL: <html>[redacted]"
    );
    let complaining = |error: Option<&str>, note: Option<&str>, information: Option<&str>| {
        let text = |t: Option<&str>| t.map(str::to_string);
        fail(received(
            200,
            "200 OK",
            "",
            Some(Envelope {
                error_message: text(error),
                note: text(note),
                information: text(information),
                series: Some(vec![bar("2026-05-22", "1")]),
            }),
        ))
    };
    assert_eq!(complaining(Some("bad KEY"), Some("n"), None), "alphavantage: bad [redacted]");
    assert_eq!(complaining(None, Some("slow KEY"), Some("i")), "alphavantage: slow [redacted]");
    assert_eq!(complaining(None, None, Some("cap")), "alphavantage: cap");
    assert_eq!(
        fail(received(200, "200 OK", "{}", Some(envelope(None)))),
        "alphavantage returned no time series for AAPL"
    );
    assert_eq!(
        fail(received(200, "200 OK", "{}", Some(envelope(Some(vec![bar("d", "NaN")]))))),
        "alphavantage returned no usable close prices for AAPL"
    );
}

const TICK: u64 = 1_000_000_000;

/// Lets one request through at its earliest, and says how long it waited.
fn pass(t: &mut Throttle, asked: u64) -> (u64, u128) {
    let waited = t.delay(asked);
    let released = asked + waited as u64;
    t.release(released);
    (released, waited)
}

#[test]
fn the_first_request_is_not_delayed() {
    let mut t = Throttle::new(TICK);
    assert_eq!(pass(&mut t, 5), (5, 0));
}

#[test]
fn consecutive_requests_are_spaced_by_the_interval() {
    let mut t = Throttle::new(TICK);
    let mut now = 0;
    for _ in 0..3 {
        now = pass(&mut t, now).0;
    }
    assert_eq!(now, 2 * TICK);
}

#[test]
fn a_caller_that_waited_long_enough_is_not_delayed_again() {
    let mut t = Throttle::new(TICK);
    pass(&mut t, 0);
    assert_eq!(pass(&mut t, 3 * TICK), (3 * TICK, 0));
}

#[test]
fn concurrent_callers_queue_instead_of_bursting() {
    let mut t = Throttle::new(TICK);
    let fired: Vec<u64> = (0..4).map(|_| pass(&mut t, 0).0).collect();
    assert_eq!(fired, vec![0, TICK, 2 * TICK, 3 * TICK]);
    for pair in fired.windows(2) {
        assert!(pair[1] - pair[0] >= TICK);
    }
}

#[test]
fn an_interval_at_the_end_of_time_does_not_overflow() {
    let mut t = Throttle::new(u64::MAX);
    t.release(u64::MAX);
    assert_eq!(t.delay(0), 2 * (u64::MAX as u128));
}
