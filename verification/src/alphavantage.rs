//! Alpha Vantage's daily time series: how often it may be asked, what is asked
//! of it, and what its answers mean.
//!
//! It takes the key as a query parameter, so no error quotes the request, and
//! every text of an answer that reaches an error has the key taken out of it
//! first.

use vstd::prelude::*;

use crate::config::optional_str;
use crate::number::{read_as, Number, Numerics};
use crate::proto::{point_views, HistoryPoint, HistoryPointView, PriceSnapshot};
use crate::secret::SecretString;
use crate::text::{
    apart, ascii_upper, before, decimal, decimals_read_back, fitting, holds, lemma_holds_itself, lemma_parts_hold, numeral,
    parse_number, quote, quoted, replace, replaced, replacing_leaves_none,
    replacing_nothing_changes_nothing, same, same_ignoring_case, shorten,
    shortened_text_is_bounded, sorts_before, stands_at,
    text_order_is_total, text_order_is_transitive, trim, trimmed, truncate, uppercase,
};

verus! {

/// Requests per minute where nothing says otherwise: what every plan allows.
pub const FREE_TIER_RPM: u32 = 60;

/// What a rate setting asks for.
pub enum Rate {
    /// No pacing.
    Unlimited,
    /// So many requests per minute.
    PerMinute(nat),
    /// Nothing that can be made out.
    Unreadable,
}

/// Whether two texts differ in nothing but the case of ASCII letters.
pub open spec fn equals_ignoring_case(a: Seq<char>, b: Seq<char>) -> bool {
    a.map_values(|c: char| ascii_upper(c)) == b.map_values(|c: char| ascii_upper(c))
}

/// What a rate setting asks for: without one, or with an empty one, the rate of
/// the free tier; `off`, `unlimited` and 0 turn pacing off.
pub open spec fn rate_of(setting: Option<Seq<char>>) -> Rate {
    match setting {
        None => Rate::PerMinute(FREE_TIER_RPM as nat),
        Some(text) => {
            let s = trim(text);
            if s.len() == 0 {
                Rate::PerMinute(FREE_TIER_RPM as nat)
            } else if equals_ignoring_case(s, "off"@) || equals_ignoring_case(s, "unlimited"@) {
                Rate::Unlimited
            } else {
                match numeral(s) {
                    None => Rate::Unreadable,
                    Some(n) => if n > u32::MAX {
                        Rate::Unreadable
                    } else if n == 0 {
                        Rate::Unlimited
                    } else {
                        Rate::PerMinute(n)
                    },
                }
            }
        },
    }
}

/// The rates at which a half nanosecond is dropped. In doubles, a half comes out
/// of `60 / rpm * 1.1` seconds as more than a half or next to an odd count, and
/// goes up, at all rates but these: here it stays a half next to an even count,
/// or comes out as less.
pub open spec fn drops_half(rpm: nat) -> bool {
    rpm == 2_048 || rpm == 67_584 || rpm == 112_640 || rpm == 6_400_000 || rpm == 1_056_000_000
        || rpm == 4_000_000_000
}

/// The nanoseconds between requests at a rate: a minute by that many, a tenth
/// more for jitter, to the nearest nanosecond.
pub open spec fn spacing(rpm: nat) -> nat
    recommends
        rpm > 0,
{
    let nearest = (132_000_000_000 + rpm) as nat / (2 * rpm);
    if drops_half(rpm) {
        (nearest - 1) as nat
    } else {
        nearest
    }
}

/// What is said of a setting that cannot be made out.
pub open spec fn unreadable_text(setting: Seq<char>) -> Seq<char> {
    "expected a requests-per-minute number or `off`, got "@ + quote(trim(setting))
}

fn interval_of(rpm: u32) -> (interval: u64)
    requires
        rpm > 0,
    ensures
        interval as nat == spacing(rpm as nat),
{
    let nearest: u64 = (132_000_000_000u64 + rpm as u64) / (2u64 * rpm as u64);
    assert(nearest >= 1) by (nonlinear_arith)
        requires
            0 < rpm <= u32::MAX,
            nearest == (132_000_000_000 + rpm) / (2 * rpm as int),
    ;
    if rpm == 2_048 || rpm == 67_584 || rpm == 112_640 || rpm == 6_400_000 || rpm == 1_056_000_000
        || rpm == 4_000_000_000 {
        nearest - 1
    } else {
        nearest
    }
}

/// The nanoseconds between requests that a setting asks for; none where it asks
/// for no pacing.
pub fn interval_from_rpm(setting: Option<&str>) -> (interval: Result<Option<u64>, String>)
    ensures
        match rate_of(optional_str(setting)) {
            Rate::Unlimited => interval == Ok::<Option<u64>, String>(None),
            Rate::PerMinute(rpm) => interval is Ok && interval->Ok_0 is Some
                && interval->Ok_0->0 as nat == spacing(rpm),
            Rate::Unreadable => interval is Err && interval->Err_0@ == unreadable_text(
                setting->0@,
            ),
        },
{
    let text = match setting {
        None => return Ok(Some(interval_of(FREE_TIER_RPM))),
        Some(text) => text,
    };
    let s = trimmed(text);
    if s.as_str().unicode_len() == 0 {
        return Ok(Some(interval_of(FREE_TIER_RPM)));
    }
    if same_ignoring_case(s.as_str(), "off") || same_ignoring_case(s.as_str(), "unlimited") {
        return Ok(None);
    }
    match parse_number(s.as_str(), 0xffff_ffff) {
        None => {
            let mut why = "expected a requests-per-minute number or `off`, got ".to_owned();
            why.append(quoted(s.as_str()).as_str());
            Err(why)
        },
        Some(n) => if n == 0 {
            Ok(None)
        } else {
            Ok(Some(interval_of(n as u32)))
        },
    }
}

/// The pacing in force: what the setting asks for, or that of the free tier
/// where it cannot be made out, and then what is wrong with it.
#[derive(Debug, Clone)]
pub struct Pacing {
    pub interval: Option<u64>,
    pub complaint: Option<String>,
}

/// The pacing in force under a setting.
pub fn pacing(setting: Option<&str>) -> (p: Pacing)
    ensures
        match rate_of(optional_str(setting)) {
            Rate::Unlimited => p.interval is None && p.complaint is None,
            Rate::PerMinute(rpm) => p.interval is Some && p.interval->0 as nat == spacing(rpm)
                && p.complaint is None,
            Rate::Unreadable => p.interval is Some && p.interval->0 as nat == spacing(
                FREE_TIER_RPM as nat,
            ) && p.complaint is Some && p.complaint->0@ == unreadable_text(setting->0@),
        },
{
    match interval_from_rpm(setting) {
        Ok(interval) => Pacing { interval, complaint: None },
        Err(why) => Pacing { interval: Some(interval_of(FREE_TIER_RPM)), complaint: Some(why) },
    }
}

/// What is left over at those rates is a half.
proof fn lemma_half_left(rpm: nat)
    requires
        drops_half(rpm),
    ensures
        (132_000_000_000 + rpm as int) / (2 * rpm as int) >= 1,
        rpm * (2 * ((132_000_000_000 + rpm as int) / (2 * rpm as int)) - 1) == 132_000_000_000,
{
    if rpm == 2_048 {
        assert(132_000_002_048int / 4_096int == 32_226_563) by (nonlinear_arith);
    } else if rpm == 67_584 {
        assert(132_000_067_584int / 135_168int == 976_563) by (nonlinear_arith);
    } else if rpm == 112_640 {
        assert(132_000_112_640int / 225_280int == 585_938) by (nonlinear_arith);
    } else if rpm == 6_400_000 {
        assert(132_006_400_000int / 12_800_000int == 10_313) by (nonlinear_arith);
    } else if rpm == 1_056_000_000 {
        assert(133_056_000_000int / 2_112_000_000int == 63) by (nonlinear_arith);
    } else {
        assert(136_000_000_000int / 8_000_000_000int == 17) by (nonlinear_arith);
    }
}

/// Requests that keep their distance stay within the rate that was asked for,
/// with room to spare: so many of them take more than a minute.
pub proof fn pacing_keeps_to_the_rate(rpm: nat)
    requires
        0 < rpm <= u32::MAX,
    ensures
        spacing(rpm) * rpm >= 60_000_000_000,
{
    let n: int = 132_000_000_000 + rpm as int;
    let d: int = 2 * rpm as int;
    let q = n / d;
    vstd::arithmetic::div_mod::lemma_fundamental_div_mod(n, d);
    assert(n % d < d);
    assert(d * q > n - d);
    assert(d * q == 2 * (q * rpm)) by (nonlinear_arith)
        requires
            d == 2 * rpm,
    ;
    if drops_half(rpm) {
        lemma_half_left(rpm);
    }
    assert((q - 1) * rpm == q * rpm - rpm) by (nonlinear_arith);
}

/// So many requests at their distance take sixty-six seconds, to within half a
/// nanosecond each.
pub proof fn spacing_is_a_tenth_above_the_rate(rpm: nat)
    requires
        rpm > 0,
    ensures
        -rpm <= 2 * (spacing(rpm) * rpm) - 132_000_000_000 <= rpm,
{
    let n: int = 132_000_000_000 + rpm as int;
    let d: int = 2 * rpm as int;
    let q = n / d;
    vstd::arithmetic::div_mod::lemma_fundamental_div_mod(n, d);
    assert(d * q == 2 * (q * rpm)) by (nonlinear_arith)
        requires
            d == 2 * rpm,
    ;
    if drops_half(rpm) {
        lemma_half_left(rpm);
        assert(rpm * (2 * q - 1) == 2 * (q * rpm) - rpm) by (nonlinear_arith);
    }
    assert((q - 1) * rpm == q * rpm - rpm) by (nonlinear_arith);
}

/// A higher rate never spaces requests further.
pub proof fn higher_rates_pace_faster(slow: nat, fast: nat)
    requires
        0 < slow <= fast,
    ensures
        spacing(fast) <= spacing(slow),
{
    let n: int = 132_000_000_000;
    let q = (n + fast as int) / (2 * fast as int);
    let p = (n + slow as int) / (2 * slow as int);
    vstd::arithmetic::div_mod::lemma_fundamental_div_mod(n + fast as int, 2 * fast as int);
    vstd::arithmetic::div_mod::lemma_fundamental_div_mod(n + slow as int, 2 * slow as int);
    assert(fast * (2 * q - 1) <= n && slow * (2 * p + 1) > n) by (nonlinear_arith)
        requires
            (2 * fast) * q <= n + fast,
            (2 * slow) * p + 2 * slow > n + slow,
    ;
    if p < q {
        assert(slow * (2 * p + 1) <= fast * (2 * q - 1)) by (nonlinear_arith)
            requires
                0 < slow <= fast,
                2 * p + 1 <= 2 * q - 1,
                q >= 1,
        ;
    }
    if drops_half(fast) {
        lemma_half_left(fast);
    }
    if drops_half(slow) {
        lemma_half_left(slow);
    }
    if drops_half(slow) && slow < fast && p <= q {
        assert(slow * (2 * p - 1) < fast * (2 * q - 1)) by (nonlinear_arith)
            requires
                0 < slow < fast,
                1 <= p <= q,
        ;
    }
}

/// A query parameter.
#[derive(Debug, Clone)]
pub struct Parameter {
    pub name: String,
    pub value: String,
}

/// A [`Parameter`] with its texts as sequences.
pub struct ParameterView {
    pub name: Seq<char>,
    pub value: Seq<char>,
}

impl View for Parameter {
    type V = ParameterView;

    open spec fn view(&self) -> ParameterView {
        ParameterView { name: self.name@, value: self.value@ }
    }
}

/// The views of the parameters.
pub open spec fn parameter_views(parameters: Seq<Parameter>) -> Seq<ParameterView> {
    parameters.map_values(|p: Parameter| p@)
}

/// Where the time series is asked for.
pub const ENDPOINT: &'static str = "https://www.alphavantage.co/query";

/// One trading day as it arrives, the close still a text.
#[derive(Debug, Clone)]
pub struct Bar {
    /// `YYYY-MM-DD`.
    pub date: String,
    pub close: String,
}

/// A [`Bar`] with its texts as sequences.
pub struct BarView {
    pub date: Seq<char>,
    pub close: Seq<char>,
}

impl View for Bar {
    type V = BarView;

    open spec fn view(&self) -> BarView {
        BarView { date: self.date@, close: self.close@ }
    }
}

/// The views of the bars.
pub open spec fn bar_views(bars: Seq<Bar>) -> Seq<BarView> {
    bars.map_values(|b: Bar| b@)
}

/// What an answer holds. Failures arrive with a status of success and a text in
/// one of the first three.
#[derive(Debug, Clone)]
pub struct Envelope {
    pub error_message: Option<String>,
    pub note: Option<String>,
    pub information: Option<String>,
    /// The bars in the order they arrived.
    pub series: Option<Vec<Bar>>,
}

/// What came of a request.
#[derive(Debug, Clone)]
pub enum Reply {
    /// It could not be sent, or was not answered.
    Unsent,
    /// The answer could not be read.
    Unread,
    Received {
        /// The HTTP status.
        code: u16,
        /// The status and its reason as text.
        status: String,
        body: String,
        /// What the body holds; nothing where it makes no sense.
        envelope: Option<Envelope>,
    },
}

/// The close of each date; the last one that arrived where there are several.
pub open spec fn closes_by_date(bars: Seq<BarView>) -> Map<Seq<char>, Seq<char>>
    decreases bars.len(),
{
    if bars.len() == 0 {
        Map::empty()
    } else {
        closes_by_date(bars.drop_last()).insert(bars.last().date, bars.last().close)
    }
}

/// Whether the dates are in order, each of them once.
pub open spec fn oldest_first(bars: Seq<BarView>) -> bool {
    forall|i: int, j: int|
        0 <= i < j < bars.len() ==> before(
            (#[trigger] bars[i]).date,
            (#[trigger] bars[j]).date,
        )
}

/// Whether `sorted` has one bar for each date of `bars`, oldest first.
pub open spec fn in_date_order(bars: Seq<BarView>, sorted: Seq<BarView>) -> bool {
    &&& oldest_first(sorted)
    &&& closes_by_date(sorted) == closes_by_date(bars)
}

/// The points of the bars whose close was read as a finite number.
pub open spec fn usable(bars: Seq<BarView>, closes: Seq<Option<Number>>) -> Seq<HistoryPointView>
    decreases bars.len(),
{
    if bars.len() == 0 || closes.len() == 0 {
        seq![]
    } else {
        let earlier = usable(bars.drop_last(), closes.drop_last());
        match closes.last() {
            Some(close) => if close.finite() {
                earlier.push(HistoryPointView { date: bars.last().date, close })
            } else {
                earlier
            },
            None => earlier,
        }
    }
}

/// `points` is an outcome of reading the closes of the bars.
pub open spec fn points_of<N: Numerics>(
    num: &N,
    bars: Seq<BarView>,
    points: Seq<HistoryPointView>,
) -> bool {
    exists|sorted: Seq<BarView>, closes: Seq<Option<Number>>|
        {
            &&& #[trigger] in_date_order(bars, sorted)
            &&& closes.len() == sorted.len()
            &&& forall|i: int|
                0 <= i < sorted.len() ==> read_as(num, sorted[i].close, #[trigger] closes[i])
            &&& points == #[trigger] usable(sorted, closes)
        }
}

/// Alpha Vantage, with the key it is asked with.
#[derive(Debug, Clone)]
pub struct AlphaVantage {
    pub key: SecretString,
}

/// `text` with the key taken out.
pub open spec fn scrubbed(text: Seq<char>, key: Seq<char>) -> Seq<char> {
    if key.len() == 0 {
        text
    } else {
        replace(text, key, "[redacted]"@)
    }
}

/// What is quoted of a body: the key taken out, and no more than 200 bytes.
pub open spec fn quoted_body(body: Seq<char>, key: Seq<char>) -> Seq<char> {
    shorten(scrubbed(body, key), 200)
}

/// What an answer says is wrong: its error, else its note, else its
/// information.
pub open spec fn complaint(e: Envelope) -> Option<Seq<char>> {
    if e.error_message is Some {
        Some(e.error_message->0@)
    } else if e.note is Some {
        Some(e.note->0@)
    } else if e.information is Some {
        Some(e.information->0@)
    } else {
        None
    }
}

/// What is said of an answer that brings no prices, if it is known before the
/// closes are read.
pub open spec fn refusal_of(key: Seq<char>, ticker: Seq<char>, reply: Reply) -> Option<Seq<char>> {
    match reply {
        Reply::Unsent => Some("alphavantage request for "@ + ticker),
        Reply::Unread => Some("reading alphavantage response for "@ + ticker),
        Reply::Received { code, status, body, envelope } => if code / 100 != 2 {
            Some(
                "alphavantage returned "@ + status@ + " for "@ + ticker + ": "@ + quoted_body(
                    body@,
                    key,
                ),
            )
        } else if envelope is None {
            Some(
                "parsing alphavantage response for "@ + ticker + ": "@ + quoted_body(body@, key),
            )
        } else if complaint(envelope->0) is Some {
            Some("alphavantage: "@ + scrubbed(complaint(envelope->0)->0, key))
        } else if envelope->0.series is None {
            Some("alphavantage returned no time series for "@ + ticker)
        } else {
            None
        },
    }
}

/// The bars of an answer that brings some.
pub open spec fn bars_of(reply: Reply) -> Seq<BarView> {
    match reply {
        Reply::Received { envelope: Some(e), .. } => match e.series {
            Some(bars) => bar_views(bars@),
            None => seq![],
        },
        _ => seq![],
    }
}

/// `result` is an outcome of making sense of a reply.
pub open spec fn understood<N: Numerics>(
    num: &N,
    key: Seq<char>,
    ticker: Seq<char>,
    reply: Reply,
    today: Seq<char>,
    result: Result<PriceSnapshot, String>,
) -> bool {
    match refusal_of(key, ticker, reply) {
        Some(message) => result is Err && result->Err_0@ == message,
        None => match result {
            Err(message) => points_of(num, bars_of(reply), seq![]) && message@
                == "alphavantage returned no usable close prices for "@ + ticker,
            Ok(snap) => {
                &&& points_of(num, bars_of(reply), point_views(snap.points@))
                &&& snap.points@.len() > 0
                &&& snap.current_price == snap.points@.last().close
                &&& snap.ticker@ == uppercase(ticker)
                &&& snap.fetched_on@ == today
            },
        },
    }
}

fn date_slot(bars: &Vec<Bar>, date: &str) -> (at: usize)
    ensures
        at <= bars@.len(),
        forall|k: int| 0 <= k < at ==> before((#[trigger] bars@[k]).date@, date@),
        at < bars@.len() ==> !before(bars@[at as int].date@, date@),
{
    let mut at: usize = 0;
    while at < bars.len() && sorts_before(bars[at].date.as_str(), date)
        invariant
            at <= bars@.len(),
            forall|k: int| 0 <= k < at ==> before((#[trigger] bars@[k]).date@, date@),
        decreases bars@.len() - at,
    {
        at = at + 1;
    }
    at
}

/// Dates that are in order occur once, so a bar is the close of its date.
proof fn lemma_closes_of_ordered(bars: Seq<BarView>)
    requires
        oldest_first(bars),
    ensures
        forall|i: int|
            0 <= i < bars.len() ==> closes_by_date(bars).dom().contains((#[trigger] bars[i]).date)
                && closes_by_date(bars)[bars[i].date] == bars[i].close,
        forall|date: Seq<char>| #[trigger]
            closes_by_date(bars).dom().contains(date) ==> exists|i: int|
                0 <= i < bars.len() && (#[trigger] bars[i]).date == date,
    decreases bars.len(),
{
    if bars.len() > 0 {
        let shorter = bars.drop_last();
        lemma_closes_of_ordered(shorter);
        assert forall|i: int| 0 <= i < bars.len() implies closes_by_date(bars).dom().contains(
            (#[trigger] bars[i]).date,
        ) && closes_by_date(bars)[bars[i].date] == bars[i].close by {
            if i < bars.len() - 1 {
                assert(shorter[i] == bars[i]);
                text_order_is_total(bars[i].date, bars.last().date);
            }
        }
        assert forall|date: Seq<char>| #[trigger]
            closes_by_date(bars).dom().contains(date) implies exists|i: int|
            0 <= i < bars.len() && (#[trigger] bars[i]).date == date by {
            if date == bars.last().date {
                assert(bars[bars.len() - 1].date == date);
            } else {
                assert(closes_by_date(shorter).dom().contains(date));
                let i = choose|i: int| 0 <= i < shorter.len() && (#[trigger] shorter[i]).date == date;
                assert(bars[i].date == date);
            }
        }
    }
}

/// Ordered bars that agree with a map, date for date, have it as their closes.
proof fn lemma_closes_are(bars: Seq<BarView>, closes: Map<Seq<char>, Seq<char>>)
    requires
        oldest_first(bars),
        forall|i: int|
            0 <= i < bars.len() ==> closes.dom().contains((#[trigger] bars[i]).date)
                && closes[bars[i].date] == bars[i].close,
        forall|date: Seq<char>| #[trigger]
            closes.dom().contains(date) ==> exists|i: int|
                0 <= i < bars.len() && (#[trigger] bars[i]).date == date,
    ensures
        closes_by_date(bars) == closes,
{
    lemma_closes_of_ordered(bars);
    let own = closes_by_date(bars);
    assert forall|date: Seq<char>| own.dom().contains(date) == closes.dom().contains(date) && (
    own.dom().contains(date) ==> own[date] == closes[date]) by {
        if own.dom().contains(date) {
            let i = choose|i: int| 0 <= i < bars.len() && (#[trigger] bars[i]).date == date;
            assert(bars[i].date == date);
        }
        if closes.dom().contains(date) {
            let i = choose|i: int| 0 <= i < bars.len() && (#[trigger] bars[i]).date == date;
            assert(bars[i].date == date);
        }
    }
    assert(own =~= closes);
}

proof fn lemma_put_bar(
    was: Seq<BarView>,
    now: Seq<BarView>,
    at: int,
    bar: BarView,
    replaces: bool,
)
    requires
        oldest_first(was),
        0 <= at <= was.len(),
        forall|k: int| 0 <= k < at ==> before((#[trigger] was[k]).date, bar.date),
        at < was.len() ==> !before(was[at].date, bar.date),
        replaces <==> at < was.len() && was[at].date == bar.date,
        now == if replaces {
            was.update(at, bar)
        } else {
            was.insert(at, bar)
        },
    ensures
        oldest_first(now),
        closes_by_date(now) == closes_by_date(was).insert(bar.date, bar.close),
{
    lemma_closes_of_ordered(was);
    let closes = closes_by_date(was).insert(bar.date, bar.close);
    assert forall|k: int| at <= k < was.len() && !(replaces && k == at) implies before(
        bar.date,
        (#[trigger] was[k]).date,
    ) by {
        text_order_is_total(was[at].date, bar.date);
        if k > at {
            if !replaces {
                text_order_is_transitive(bar.date, was[at].date, was[k].date);
            }
        }
    }
    assert forall|i: int, j: int| 0 <= i < j < now.len() implies before(
        (#[trigger] now[i]).date,
        (#[trigger] now[j]).date,
    ) by {
        if replaces {
            if i == at {
                assert(now[j] == was[j]);
            } else if j == at {
                assert(now[i] == was[i]);
            } else {
                assert(now[i] == was[i]);
                assert(now[j] == was[j]);
            }
        } else {
            if i == at {
                assert(now[j] == was[j - 1]);
            } else if j == at {
                assert(now[i] == was[i]);
            } else if j < at {
                assert(now[i] == was[i]);
                assert(now[j] == was[j]);
            } else if i < at {
                assert(now[i] == was[i]);
                assert(now[j] == was[j - 1]);
            } else {
                assert(now[i] == was[i - 1]);
                assert(now[j] == was[j - 1]);
            }
        }
    }
    assert forall|i: int| 0 <= i < now.len() implies closes.dom().contains(
        (#[trigger] now[i]).date,
    ) && closes[now[i].date] == now[i].close by {
        if i != at {
            let k = if i < at || replaces {
                i
            } else {
                i - 1
            };
            assert(now[i] == was[k]);
            if i < at {
                text_order_is_total(now[i].date, bar.date);
            } else {
                text_order_is_total(bar.date, now[i].date);
            }
        }
    }
    assert forall|date: Seq<char>| #[trigger] closes.dom().contains(date) implies exists|i: int|
        0 <= i < now.len() && (#[trigger] now[i]).date == date by {
        if date == bar.date {
            assert(now[at].date == date);
        } else {
            let k = choose|k: int| 0 <= k < was.len() && (#[trigger] was[k]).date == date;
            if k < at || replaces {
                assert(now[k] == was[k]);
            } else {
                assert(now[k + 1] == was[k]);
            }
        }
    }
    lemma_closes_are(now, closes);
}

/// One bar for each date, oldest first; where a date arrived more than once,
/// its last close.
pub fn by_date(bars: &Vec<Bar>) -> (sorted: Vec<Bar>)
    ensures
        in_date_order(bar_views(bars@), bar_views(sorted@)),
{
    let mut sorted: Vec<Bar> = Vec::new();
    let mut i: usize = 0;
    assert(bar_views(sorted@) =~= seq![]);
    while i < bars.len()
        invariant
            i <= bars@.len(),
            in_date_order(bar_views(bars@).take(i as int), bar_views(sorted@)),
        decreases bars@.len() - i,
    {
        let bar = Bar { date: bars[i].date.clone(), close: bars[i].close.clone() };
        let ghost view = bar@;
        let ghost was = bar_views(sorted@);
        let at = date_slot(&sorted, bar.date.as_str());
        proof {
            assert forall|k: int| 0 <= k < at implies before((#[trigger] was[k]).date, view.date) by {
                assert(was[k] == sorted@[k]@);
            }
            if at < sorted@.len() {
                assert(was[at as int] == sorted@[at as int]@);
            }
        }
        if at < sorted.len() && same(sorted[at].date.as_str(), bar.date.as_str()) {
            sorted.set(at, bar);
            proof {
                assert(bar_views(sorted@) =~= was.update(at as int, view));
                lemma_put_bar(was, bar_views(sorted@), at as int, view, true);
            }
        } else {
            sorted.insert(at, bar);
            proof {
                assert(bar_views(sorted@) =~= was.insert(at as int, view));
                lemma_put_bar(was, bar_views(sorted@), at as int, view, false);
            }
        }
        proof {
            let next = bar_views(bars@).take(i + 1);
            assert(next.drop_last() =~= bar_views(bars@).take(i as int));
            assert(next.last() == view);
        }
        i = i + 1;
    }
    assert(bar_views(bars@).take(i as int) =~= bar_views(bars@));
    sorted
}

fn read_points<N: Numerics>(num: &N, bars: &Vec<Bar>) -> (points: Vec<HistoryPoint>)
    ensures
        points_of(num, bar_views(bars@), point_views(points@)),
{
    let sorted = by_date(bars);
    let ghost days = bar_views(sorted@);
    let ghost mut closes: Seq<Option<Number>> = seq![];
    let mut points: Vec<HistoryPoint> = Vec::new();
    let mut i: usize = 0;
    assert(point_views(points@) =~= usable(days.take(0), closes));
    while i < sorted.len()
        invariant
            i <= sorted@.len(),
            days == bar_views(sorted@),
            closes.len() == i,
            forall|k: int| 0 <= k < i ==> read_as(num, days[k].close, #[trigger] closes[k]),
            point_views(points@) == usable(days.take(i as int), closes),
        decreases sorted@.len() - i,
    {
        let close = num.parse(sorted[i].close.as_str());
        let ghost was = point_views(points@);
        proof {
            assert(days[i as int] == sorted@[i as int]@);
            assert(read_as(num, days[i as int].close, close));
            let ghost earlier = closes;
            closes = earlier.push(close);
            assert(closes.drop_last() =~= earlier);
            assert(days.take(i + 1).drop_last() =~= days.take(i as int));
        }
        match close {
            Some(c) => {
                if c.is_finite() {
                    points.push(HistoryPoint { date: sorted[i].date.clone(), close: c });
                    assert(point_views(points@) =~= was.push(
                        HistoryPointView { date: days[i as int].date, close: c },
                    ));
                }
            },
            None => {},
        }
        i = i + 1;
    }
    proof {
        assert(days.take(i as int) =~= days);
        assert(in_date_order(bar_views(bars@), days));
        assert(point_views(points@) == usable(days, closes));
    }
    points
}

impl AlphaVantage {
    /// A source that asks with this key.
    pub fn new(key: SecretString) -> (a: AlphaVantage)
        ensures
            a.key@ == key@,
    {
        AlphaVantage { key }
    }

    /// The text with the key taken out, for a message.
    pub fn scrub(&self, text: &str) -> (out: String)
        ensures
            out@ == scrubbed(text@, self.key@),
    {
        if self.key.is_empty() {
            return text.to_owned();
        }
        replaced(text, self.key.expose_secret(), "[redacted]")
    }

    /// What is quoted of a body.
    pub fn err_body(&self, body: &str) -> (out: String)
        ensures
            out@ == quoted_body(body@, self.key@),
    {
        truncate(self.scrub(body).as_str(), 200)
    }

    /// What is asked for a ticker: its last hundred or so daily closes.
    pub fn query(&self, ticker: &str) -> (parameters: Vec<Parameter>)
        ensures
            parameter_views(parameters@) == seq![
                ParameterView { name: "function"@, value: "TIME_SERIES_DAILY"@ },
                ParameterView { name: "symbol"@, value: ticker@ },
                ParameterView { name: "outputsize"@, value: "compact"@ },
                ParameterView { name: "apikey"@, value: self.key@ },
            ],
    {
        let mut all: Vec<Parameter> = Vec::new();
        all.push(
            Parameter { name: "function".to_owned(), value: "TIME_SERIES_DAILY".to_owned() },
        );
        all.push(Parameter { name: "symbol".to_owned(), value: ticker.to_owned() });
        all.push(Parameter { name: "outputsize".to_owned(), value: "compact".to_owned() });
        all.push(
            Parameter {
                name: "apikey".to_owned(),
                value: self.key.expose_secret().to_owned(),
            },
        );
        assert(parameter_views(all@) =~= seq![
            ParameterView { name: "function"@, value: "TIME_SERIES_DAILY"@ },
            ParameterView { name: "symbol"@, value: ticker@ },
            ParameterView { name: "outputsize"@, value: "compact"@ },
            ParameterView { name: "apikey"@, value: self.key@ },
        ]);
        all
    }

    /// Makes sense of a reply: the closes it brings for a ticker on the day
    /// `today`, oldest first, or what is wrong.
    pub fn fetch<N: Numerics>(
        &self,
        num: &N,
        ticker: &str,
        reply: &Reply,
        today: &str,
    ) -> (result: Result<PriceSnapshot, String>)
        ensures
            understood(num, self.key@, ticker@, *reply, today@, result),
    {
        let (code, status, body, envelope) = match reply {
            Reply::Unsent => return Err("alphavantage request for ".to_owned().concat(ticker)),
            Reply::Unread => {
                return Err("reading alphavantage response for ".to_owned().concat(ticker));
            },
            Reply::Received { code, status, body, envelope } => (*code, status, body, envelope),
        };
        if code / 100 != 2 {
            let mut message = "alphavantage returned ".to_owned();
            message.append(status.as_str());
            message.append(" for ");
            message.append(ticker);
            message.append(": ");
            message.append(self.err_body(body.as_str()).as_str());
            return Err(message);
        }
        let envelope = match envelope {
            Some(e) => e,
            None => {
                let mut message = "parsing alphavantage response for ".to_owned();
                message.append(ticker);
                message.append(": ");
                message.append(self.err_body(body.as_str()).as_str());
                return Err(message);
            },
        };
        match (&envelope.error_message, &envelope.note, &envelope.information) {
            (Some(text), _, _) => {
                return Err("alphavantage: ".to_owned().concat(self.scrub(text.as_str()).as_str()));
            },
            (None, Some(text), _) => {
                return Err("alphavantage: ".to_owned().concat(self.scrub(text.as_str()).as_str()));
            },
            (None, None, Some(text)) => {
                return Err("alphavantage: ".to_owned().concat(self.scrub(text.as_str()).as_str()));
            },
            (None, None, None) => {},
        }
        let bars = match &envelope.series {
            Some(bars) => bars,
            None => {
                return Err("alphavantage returned no time series for ".to_owned().concat(ticker));
            },
        };
        let points = read_points(num, bars);
        if points.len() == 0 {
            assert(point_views(points@) =~= seq![]);
            return Err(
                "alphavantage returned no usable close prices for ".to_owned().concat(ticker),
            );
        }
        let current_price = points[points.len() - 1].close;
        Ok(
            PriceSnapshot {
                ticker: ticker.to_uppercase(),
                current_price,
                points,
                fetched_on: today.to_owned(),
            },
        )
    }
}

/// No text that goes into a message holds the key, where no occurrence of the
/// key can overlap the mark that stands in for it.
pub proof fn scrubbed_text_is_free_of_the_key(text: Seq<char>, key: Seq<char>)
    requires
        key.len() > 0,
        apart(key, "[redacted]"@),
    ensures
        !holds(scrubbed(text, key), key),
{
    reveal_strlit("[redacted]");
    replacing_leaves_none(text, key, "[redacted]"@);
}

/// Nor does what is quoted of a body, where the key does not end with the
/// ellipsis either.
pub proof fn quoted_body_is_free_of_the_key(body: Seq<char>, key: Seq<char>)
    requires
        key.len() > 0,
        apart(key, "[redacted]"@),
        key.last() != '…',
    ensures
        !holds(quoted_body(body, key), key),
{
    scrubbed_text_is_free_of_the_key(body, key);
    let full = scrubbed(body, key);
    let out = quoted_body(body, key);
    if holds(out, key) && out != full {
        let at = choose|at: int| #[trigger] stands_at(out, key, at);
        let cut = fitting(full, 200) as int;
        reveal_strlit("…");
        crate::text::lemma_fitting_bounds(full, 200);
        assert(out.subrange(at, at + key.len()).last() == out[at + key.len() - 1]);
        if at + key.len() <= cut {
            assert(full.subrange(at, at + key.len()) =~= out.subrange(at, at + key.len()));
            assert(stands_at(full, key, at));
        }
    }
}

/// The points that come of bars in order are in order themselves, each date
/// once, and every close is finite.
proof fn lemma_usable_in_order(bars: Seq<BarView>, closes: Seq<Option<Number>>)
    requires
        oldest_first(bars),
    ensures
        forall|i: int, j: int|
            0 <= i < j < usable(bars, closes).len() ==> before(
                (#[trigger] usable(bars, closes)[i]).date,
                (#[trigger] usable(bars, closes)[j]).date,
            ),
        forall|i: int|
            0 <= i < usable(bars, closes).len() ==> (#[trigger] usable(
                bars,
                closes,
            )[i]).close.finite(),
        forall|i: int|
            0 <= i < usable(bars, closes).len() ==> exists|k: int|
                0 <= k < bars.len() && (#[trigger] bars[k]).date == (#[trigger] usable(
                    bars,
                    closes,
                )[i]).date,
    decreases bars.len(),
{
    if bars.len() > 0 && closes.len() > 0 {
        let shorter = bars.drop_last();
        let earlier = usable(shorter, closes.drop_last());
        let all = usable(bars, closes);
        lemma_usable_in_order(shorter, closes.drop_last());
        assert forall|i: int| 0 <= i < all.len() implies exists|k: int|
            0 <= k < bars.len() && (#[trigger] bars[k]).date == (#[trigger] all[i]).date by {
            if i < earlier.len() {
                assert(all[i] == earlier[i]);
                let k = choose|k: int|
                    0 <= k < shorter.len() && (#[trigger] shorter[k]).date == earlier[i].date;
                assert(bars[k].date == all[i].date);
            } else {
                assert(bars[bars.len() - 1].date == all[i].date);
            }
        }
        assert forall|i: int, j: int| 0 <= i < j < all.len() implies before(
            (#[trigger] all[i]).date,
            (#[trigger] all[j]).date,
        ) by {
            assert(all[i] == earlier[i]);
            if j < earlier.len() {
                assert(all[j] == earlier[j]);
            } else {
                let k = choose|k: int|
                    0 <= k < shorter.len() && (#[trigger] shorter[k]).date == earlier[i].date;
                assert(before(bars[k].date, bars[bars.len() - 1].date));
            }
        }
    }
}

/// Whatever order the bars arrive in, the points of a snapshot are oldest
/// first, each date once, and every close is finite; so is the current price.
pub proof fn snapshots_are_oldest_first<N: Numerics>(
    num: &N,
    key: Seq<char>,
    ticker: Seq<char>,
    reply: Reply,
    today: Seq<char>,
    snap: PriceSnapshot,
)
    requires
        understood(num, key, ticker, reply, today, Ok(snap)),
    ensures
        forall|i: int, j: int|
            0 <= i < j < snap.points@.len() ==> before(
                (#[trigger] snap.points@[i]).date@,
                (#[trigger] snap.points@[j]).date@,
            ),
        forall|i: int|
            0 <= i < snap.points@.len() ==> (#[trigger] snap.points@[i]).close.finite(),
        snap.current_price.finite(),
{
    let points = point_views(snap.points@);
    let (sorted, closes) = choose|sorted: Seq<BarView>, closes: Seq<Option<Number>>|
        {
            &&& #[trigger] in_date_order(bars_of(reply), sorted)
            &&& closes.len() == sorted.len()
            &&& forall|i: int|
                0 <= i < sorted.len() ==> read_as(num, sorted[i].close, #[trigger] closes[i])
            &&& points == #[trigger] usable(sorted, closes)
        };
    lemma_usable_in_order(sorted, closes);
    assert forall|i: int, j: int| 0 <= i < j < snap.points@.len() implies before(
        (#[trigger] snap.points@[i]).date@,
        (#[trigger] snap.points@[j]).date@,
    ) by {
        assert(points[i] == snap.points@[i]@);
        assert(points[j] == snap.points@[j]@);
    }
    assert forall|i: int| 0 <= i < snap.points@.len() implies (
    #[trigger] snap.points@[i]).close.finite() by {
        assert(points[i] == snap.points@[i]@);
    }
}

/// The close of a date is that of the last bar which has it.
proof fn lemma_last_bar_counts(bars: Seq<BarView>)
    ensures
        forall|k: int|
            0 <= k < bars.len() && (forall|j: int|
                k < j < bars.len() ==> (#[trigger] bars[j]).date != bars[k].date)
                ==> closes_by_date(bars).dom().contains((#[trigger] bars[k]).date)
                && closes_by_date(bars)[bars[k].date] == bars[k].close,
        forall|date: Seq<char>| #[trigger]
            closes_by_date(bars).dom().contains(date) ==> exists|k: int|
                0 <= k < bars.len() && (#[trigger] bars[k]).date == date && forall|j: int|
                    k < j < bars.len() ==> (#[trigger] bars[j]).date != date,
    decreases bars.len(),
{
    if bars.len() > 0 {
        let shorter = bars.drop_last();
        lemma_last_bar_counts(shorter);
        assert forall|k: int|
            0 <= k < bars.len() && (forall|j: int|
                k < j < bars.len() ==> (#[trigger] bars[j]).date != bars[k].date) implies
            closes_by_date(bars).dom().contains((#[trigger] bars[k]).date)
            && closes_by_date(bars)[bars[k].date] == bars[k].close by {
            if k < shorter.len() {
                assert(shorter[k] == bars[k]);
                assert(bars[bars.len() - 1].date != bars[k].date);
                assert forall|j: int| k < j < shorter.len() implies (#[trigger] shorter[j]).date
                    != shorter[k].date by {
                    assert(shorter[j] == bars[j]);
                }
            }
        }
        assert forall|date: Seq<char>| #[trigger]
            closes_by_date(bars).dom().contains(date) implies exists|k: int|
            0 <= k < bars.len() && (#[trigger] bars[k]).date == date && forall|j: int|
                k < j < bars.len() ==> (#[trigger] bars[j]).date != date by {
            if date == bars.last().date {
                assert(bars[bars.len() - 1].date == date);
            } else {
                assert(closes_by_date(shorter).dom().contains(date));
                let k = choose|k: int|
                    0 <= k < shorter.len() && (#[trigger] shorter[k]).date == date && forall|j: int|
                        k < j < shorter.len() ==> (#[trigger] shorter[j]).date != date;
                assert(bars[k].date == date);
                assert forall|j: int| k < j < bars.len() implies (#[trigger] bars[j]).date
                    != date by {
                    if j < shorter.len() {
                        assert(shorter[j] == bars[j]);
                    }
                }
            }
        }
    }
}

/// A point stands for each bar whose close is a finite number, and for no other.
proof fn lemma_usable_are_the_finite(bars: Seq<BarView>, closes: Seq<Option<Number>>)
    requires
        closes.len() == bars.len(),
    ensures
        forall|k: int|
            0 <= k < bars.len() && closes[k] is Some && closes[k]->0.finite() ==> usable(
                bars,
                closes,
            ).contains(
                (HistoryPointView { date: (#[trigger] bars[k]).date, close: closes[k]->0 }),
            ),
        forall|p: int|
            0 <= p < usable(bars, closes).len() ==> exists|k: int|
                0 <= k < bars.len() && (#[trigger] bars[k]).date == (#[trigger] usable(
                    bars,
                    closes,
                )[p]).date && closes[k] == Some(usable(bars, closes)[p].close)
                    && usable(bars, closes)[p].close.finite(),
    decreases bars.len(),
{
    if bars.len() > 0 {
        let shorter = bars.drop_last();
        let fewer = closes.drop_last();
        let earlier = usable(shorter, fewer);
        let all = usable(bars, closes);
        lemma_usable_are_the_finite(shorter, fewer);
        assert forall|k: int|
            0 <= k < bars.len() && closes[k] is Some && closes[k]->0.finite() implies all.contains(
            HistoryPointView { date: (#[trigger] bars[k]).date, close: closes[k]->0 },
        ) by {
            let point = HistoryPointView { date: bars[k].date, close: closes[k]->0 };
            if k < shorter.len() {
                assert(shorter[k] == bars[k] && fewer[k] == closes[k]);
                assert(earlier.contains(point));
                let p = choose|p: int| 0 <= p < earlier.len() && earlier[p] == point;
                assert(all[p] == point);
            } else {
                assert(all[all.len() - 1] == point);
            }
        }
        assert forall|p: int| 0 <= p < all.len() implies exists|k: int|
            0 <= k < bars.len() && (#[trigger] bars[k]).date == (#[trigger] all[p]).date
                && closes[k] == Some(all[p].close) && all[p].close.finite() by {
            if p < earlier.len() {
                assert(all[p] == earlier[p]);
                let k = choose|k: int|
                    0 <= k < shorter.len() && (#[trigger] shorter[k]).date == earlier[p].date
                        && fewer[k] == Some(earlier[p].close) && earlier[p].close.finite();
                assert(bars[k].date == all[p].date);
                assert(closes[k] == fewer[k]);
            } else {
                assert(bars[bars.len() - 1].date == all[p].date);
            }
        }
    }
}

/// What points are made of bars: for each date the last bar that has it counts,
/// and it makes a point exactly where its close reads as a finite number.
proof fn lemma_points_of_bars<N: Numerics>(
    num: &N,
    bars: Seq<BarView>,
    points: Seq<HistoryPointView>,
)
    requires
        points_of(num, bars, points),
    ensures
        forall|p: int|
            0 <= p < points.len() ==> exists|k: int|
                0 <= k < bars.len() && (#[trigger] bars[k]).date == (#[trigger] points[p]).date
                    && read_as(num, bars[k].close, Some(points[p].close)) && (forall|j: int|
                    k < j < bars.len() ==> (#[trigger] bars[j]).date != bars[k].date),
        forall|k: int|
            0 <= k < bars.len() && (forall|j: int|
                k < j < bars.len() ==> (#[trigger] bars[j]).date != (#[trigger] bars[k]).date)
                ==> exists|r: Option<Number>| #[trigger]
                read_as(num, bars[k].close, r) && if r is Some && r->0.finite() {
                    points.contains((HistoryPointView { date: bars[k].date, close: r->0 }))
                } else {
                    forall|p: int| 0 <= p < points.len() ==> (#[trigger] points[p]).date
                        != bars[k].date
                },
{
    let (sorted, closes) = choose|sorted: Seq<BarView>, closes: Seq<Option<Number>>|
        {
            &&& #[trigger] in_date_order(bars, sorted)
            &&& closes.len() == sorted.len()
            &&& forall|i: int|
                0 <= i < sorted.len() ==> read_as(num, sorted[i].close, #[trigger] closes[i])
            &&& points == #[trigger] usable(sorted, closes)
        };
    lemma_last_bar_counts(bars);
    lemma_closes_of_ordered(sorted);
    lemma_usable_are_the_finite(sorted, closes);
    assert forall|p: int| 0 <= p < points.len() implies exists|k: int|
        0 <= k < bars.len() && (#[trigger] bars[k]).date == (#[trigger] points[p]).date && read_as(
            num,
            bars[k].close,
            Some(points[p].close),
        ) && (forall|j: int| k < j < bars.len() ==> (#[trigger] bars[j]).date != bars[k].date) by {
        let i = choose|i: int|
            0 <= i < sorted.len() && (#[trigger] sorted[i]).date == points[p].date && closes[i]
                == Some(points[p].close) && points[p].close.finite();
        let date = sorted[i].date;
        assert(closes_by_date(bars).dom().contains(date));
        let k = choose|k: int|
            0 <= k < bars.len() && (#[trigger] bars[k]).date == date && forall|j: int|
                k < j < bars.len() ==> (#[trigger] bars[j]).date != date;
        assert(bars[k].close == sorted[i].close);
        assert(read_as(num, sorted[i].close, closes[i]));
    }
    assert forall|k: int|
        0 <= k < bars.len() && (forall|j: int|
            k < j < bars.len() ==> (#[trigger] bars[j]).date != (#[trigger] bars[k]).date) implies
        exists|r: Option<Number>| #[trigger]
        read_as(num, bars[k].close, r) && if r is Some && r->0.finite() {
            points.contains(HistoryPointView { date: bars[k].date, close: r->0 })
        } else {
            forall|p: int| 0 <= p < points.len() ==> (#[trigger] points[p]).date != bars[k].date
        } by {
        let date = bars[k].date;
        assert(closes_by_date(sorted).dom().contains(date));
        let i = choose|i: int| 0 <= i < sorted.len() && (#[trigger] sorted[i]).date == date;
        assert(sorted[i].close == bars[k].close);
        let r = closes[i];
        assert(read_as(num, bars[k].close, r));
        if !(r is Some && r->0.finite()) {
            assert forall|p: int| 0 <= p < points.len() implies (#[trigger] points[p]).date
                != date by {
                let m = choose|m: int|
                    0 <= m < sorted.len() && (#[trigger] sorted[m]).date == points[p].date
                        && closes[m] == Some(points[p].close) && points[p].close.finite();
                if points[p].date == date && m != i {
                    text_order_is_total(date, date);
                    assert(before(sorted[m].date, sorted[i].date) || before(
                        sorted[i].date,
                        sorted[m].date,
                    ));
                }
            }
        }
    }
}

/// Every point of a snapshot is the close of a date that the reply brings: of
/// the last bar which has it, read as a number.
pub proof fn points_are_closes_of_the_reply<N: Numerics>(
    num: &N,
    key: Seq<char>,
    ticker: Seq<char>,
    code: u16,
    status: String,
    body: String,
    e: Envelope,
    bars: Vec<Bar>,
    today: Seq<char>,
    snap: PriceSnapshot,
    p: int,
)
    requires
        e.series == Some(bars),
        understood(
            num,
            key,
            ticker,
            (Reply::Received { code, status, body, envelope: Some(e) }),
            today,
            Ok(snap),
        ),
        0 <= p < snap.points@.len(),
    ensures
        exists|k: int|
            0 <= k < bars@.len() && (#[trigger] bars@[k]).date@ == snap.points@[p].date@ && read_as(
                num,
                bars@[k].close@,
                Some(snap.points@[p].close),
            ) && (forall|j: int|
                k < j < bars@.len() ==> (#[trigger] bars@[j]).date@ != snap.points@[p].date@),
{
    let views = bar_views(bars@);
    let points = point_views(snap.points@);
    lemma_points_of_bars(num, views, points);
    assert(points[p] == snap.points@[p]@);
    let date = points[p].date;
    let k = choose|k: int|
        0 <= k < views.len() && (#[trigger] views[k]).date == points[p].date && read_as(
            num,
            views[k].close,
            Some(points[p].close),
        ) && (forall|j: int| k < j < views.len() ==> (#[trigger] views[j]).date != views[k].date);
    assert(bars@[k]@ == views[k]);
    assert forall|j: int| k < j < bars@.len() implies (#[trigger] bars@[j]).date@ != date by {
        assert(views[j].date == bars@[j].date@);
    }
}

/// A date whose last bar reads as a finite number makes a point of a snapshot,
/// and one whose last bar does not makes none.
pub proof fn usable_closes_make_points<N: Numerics>(
    num: &N,
    key: Seq<char>,
    ticker: Seq<char>,
    code: u16,
    status: String,
    body: String,
    e: Envelope,
    bars: Vec<Bar>,
    today: Seq<char>,
    snap: PriceSnapshot,
    k: int,
)
    requires
        e.series == Some(bars),
        understood(
            num,
            key,
            ticker,
            (Reply::Received { code, status, body, envelope: Some(e) }),
            today,
            Ok(snap),
        ),
        0 <= k < bars@.len(),
        forall|j: int| k < j < bars@.len() ==> (#[trigger] bars@[j]).date@ != bars@[k].date@,
    ensures
        exists|r: Option<Number>| #[trigger]
            read_as(num, bars@[k].close@, r) && if r is Some && r->0.finite() {
                exists|p: int|
                    0 <= p < snap.points@.len() && (#[trigger] snap.points@[p]).date@
                        == bars@[k].date@ && snap.points@[p].close == r->0
            } else {
                forall|p: int|
                    0 <= p < snap.points@.len() ==> (#[trigger] snap.points@[p]).date@
                        != bars@[k].date@
            },
{
    let views = bar_views(bars@);
    let points = point_views(snap.points@);
    lemma_points_of_bars(num, views, points);
    let date = bars@[k].date@;
    assert(views[k] == bars@[k]@);
    assert forall|j: int| k < j < views.len() implies (#[trigger] views[j]).date
        != views[k].date by {
        assert(views[j].date == bars@[j].date@);
    }
    let r = choose|r: Option<Number>| #[trigger]
        read_as(num, views[k].close, r) && if r is Some && r->0.finite() {
            points.contains(HistoryPointView { date: views[k].date, close: r->0 })
        } else {
            forall|p: int| 0 <= p < points.len() ==> (#[trigger] points[p]).date != views[k].date
        };
    assert(read_as(num, bars@[k].close@, r));
    if r is Some && r->0.finite() {
        let point = HistoryPointView { date, close: r->0 };
        let p = choose|p: int| 0 <= p < points.len() && points[p] == point;
        assert(points[p] == snap.points@[p]@);
        assert(snap.points@[p].date@ == date);
    } else {
        assert forall|p: int| 0 <= p < snap.points@.len() implies (
        #[trigger] snap.points@[p]).date@ != date by {
            assert(points[p].date == snap.points@[p].date@);
        }
    }
}

/// The current price is the close of the newest point: of one that every other
/// point comes before. No bar of the reply that is newer counts for a finite
/// number.
pub proof fn current_price_is_the_newest_close<N: Numerics>(
    num: &N,
    key: Seq<char>,
    ticker: Seq<char>,
    code: u16,
    status: String,
    body: String,
    e: Envelope,
    bars: Vec<Bar>,
    today: Seq<char>,
    snap: PriceSnapshot,
)
    requires
        e.series == Some(bars),
        understood(
            num,
            key,
            ticker,
            (Reply::Received { code, status, body, envelope: Some(e) }),
            today,
            Ok(snap),
        ),
    ensures
        exists|newest: int|
            {
                &&& 0 <= newest < snap.points@.len()
                &&& (#[trigger] snap.points@[newest]).close == snap.current_price
                &&& forall|p: int|
                    0 <= p < snap.points@.len() && p != newest ==> before(
                        (#[trigger] snap.points@[p]).date@,
                        snap.points@[newest].date@,
                    )
                &&& forall|k: int|
                    0 <= k < bars@.len() && before(
                        snap.points@[newest].date@,
                        (#[trigger] bars@[k]).date@,
                    ) && (forall|j: int|
                        k < j < bars@.len() ==> (#[trigger] bars@[j]).date@ != bars@[k].date@)
                        ==> exists|r: Option<Number>| #[trigger]
                        read_as(num, bars@[k].close@, r) && !(r is Some && r->0.finite())
            },
{
    let reply = Reply::Received { code, status, body, envelope: Some(e) };
    snapshots_are_oldest_first(num, key, ticker, reply, today, snap);
    let newest = snap.points@.len() - 1;
    assert(snap.points@[newest].close == snap.current_price);
    assert forall|k: int|
        0 <= k < bars@.len() && before(snap.points@[newest].date@, (#[trigger] bars@[k]).date@) && (
        forall|j: int| k < j < bars@.len() ==> (#[trigger] bars@[j]).date@ != bars@[k].date@)
        implies exists|r: Option<Number>| #[trigger]
        read_as(num, bars@[k].close@, r) && !(r is Some && r->0.finite()) by {
        let date = bars@[k].date@;
        usable_closes_make_points(
            num,
            key,
            ticker,
            code,
            status,
            body,
            e,
            bars,
            today,
            snap,
            k,
        );
        let r = choose|r: Option<Number>| #[trigger]
            read_as(num, bars@[k].close@, r) && if r is Some && r->0.finite() {
                exists|p: int|
                    0 <= p < snap.points@.len() && (#[trigger] snap.points@[p]).date@ == date
                        && snap.points@[p].close == r->0
            } else {
                forall|p: int| 0 <= p < snap.points@.len() ==> (#[trigger] snap.points@[p]).date@
                    != date
            };
        if r is Some && r->0.finite() {
            let p = choose|p: int|
                0 <= p < snap.points@.len() && (#[trigger] snap.points@[p]).date@ == date
                    && snap.points@[p].close == r->0;
            let last = snap.points@[newest].date@;
            text_order_is_total(date, date);
            if p < newest {
                assert(before(snap.points@[p].date@, last));
                text_order_is_transitive(date, last, date);
            }
        }
        assert(read_as(num, bars@[k].close@, r));
    }
}

/// Prices come of good replies alone: of a status of success, with a series and
/// no complaint. They are those of the ticker, in upper case, on the day they
/// came.
pub proof fn prices_come_of_good_replies<N: Numerics>(
    num: &N,
    key: Seq<char>,
    ticker: Seq<char>,
    reply: Reply,
    today: Seq<char>,
    snap: PriceSnapshot,
)
    requires
        understood(num, key, ticker, reply, today, Ok(snap)),
    ensures
        reply matches Reply::Received { code, envelope: Some(e), .. } && 200 <= code < 300
            && e.error_message is None && e.note is None && e.information is None
            && e.series is Some,
        snap.points@.len() > 0,
        snap.ticker@ == uppercase(ticker),
        snap.fetched_on@ == today,
{
}

/// A good reply is refused only where none of its dates counts: where the last
/// bar of each reads as no finite number.
pub proof fn good_replies_bring_prices<N: Numerics>(
    num: &N,
    key: Seq<char>,
    ticker: Seq<char>,
    code: u16,
    status: String,
    body: String,
    e: Envelope,
    bars: Vec<Bar>,
    today: Seq<char>,
    message: String,
    k: int,
)
    requires
        200 <= code < 300,
        e.error_message is None && e.note is None && e.information is None,
        e.series == Some(bars),
        understood(
            num,
            key,
            ticker,
            (Reply::Received { code, status, body, envelope: Some(e) }),
            today,
            Err(message),
        ),
        0 <= k < bars@.len(),
        forall|j: int| k < j < bars@.len() ==> (#[trigger] bars@[j]).date@ != bars@[k].date@,
    ensures
        exists|r: Option<Number>| #[trigger]
            read_as(num, bars@[k].close@, r) && !(r is Some && r->0.finite()),
{
    let views = bar_views(bars@);
    lemma_points_of_bars(num, views, seq![]);
    assert(views[k] == bars@[k]@);
    assert forall|j: int| k < j < views.len() implies (#[trigger] views[j]).date
        != views[k].date by {
        assert(views[j].date == bars@[j].date@);
    }
    let r = choose|r: Option<Number>| #[trigger]
        read_as(num, views[k].close, r) && if r is Some && r->0.finite() {
            Seq::<HistoryPointView>::empty().contains(
                HistoryPointView { date: views[k].date, close: r->0 },
            )
        } else {
            forall|p: int| 0 <= p < Seq::<HistoryPointView>::empty().len() ==> (
            #[trigger] Seq::<HistoryPointView>::empty()[p]).date != views[k].date
        };
    assert(read_as(num, bars@[k].close@, r));
}

/// What the provider complains of is passed on in its own words, where the key
/// is not among them: its error, else its note, else its information.
pub proof fn complaints_are_passed_on<N: Numerics>(
    num: &N,
    key: Seq<char>,
    ticker: Seq<char>,
    code: u16,
    status: String,
    body: String,
    e: Envelope,
    today: Seq<char>,
    result: Result<PriceSnapshot, String>,
    words: Seq<char>,
)
    requires
        200 <= code < 300,
        understood(
            num,
            key,
            ticker,
            (Reply::Received { code, status, body, envelope: Some(e) }),
            today,
            result,
        ),
        match (e.error_message, e.note, e.information) {
            (Some(text), _, _) => text@ == words,
            (None, Some(text), _) => text@ == words,
            (None, None, Some(text)) => text@ == words,
            (None, None, None) => false,
        },
        key.len() == 0 || !holds(words, key),
    ensures
        result matches Err(message) && message@ == "alphavantage: "@ + words,
{
    replacing_nothing_changes_nothing(words, key, "[redacted]"@);
}

/// What is quoted of a body is short: 200 bytes at most, and an ellipsis.
pub proof fn quoted_bodies_are_short(body: Seq<char>, key: Seq<char>)
    ensures
        vstd::utf8::encode_utf8(quoted_body(body, key)).len() <= 203,
{
    shortened_text_is_bounded(scrubbed(body, key), 200);
}

/// A reply without a status of success is refused, and the message names the
/// ticker and the status; one that makes no sense is refused too.
pub proof fn bad_replies_are_refused<N: Numerics>(
    num: &N,
    key: Seq<char>,
    ticker: Seq<char>,
    code: u16,
    status: String,
    body: String,
    envelope: Option<Envelope>,
    today: Seq<char>,
    result: Result<PriceSnapshot, String>,
)
    requires
        understood(
            num,
            key,
            ticker,
            (Reply::Received { code, status, body, envelope }),
            today,
            result,
        ),
        code < 200 || code >= 300 || envelope is None,
    ensures
        result matches Err(message) && holds(message@, ticker) && holds(
            message@,
            quoted_body(body@, key),
        ) && (code < 200 || code >= 300 ==> holds(message@, status@)),
{
    broadcast use {lemma_parts_hold, lemma_holds_itself};

}

/// A rate is taken as it is written, whatever white space is around it; without
/// one the free tier's sixty a minute holds, and zero turns pacing off.
pub proof fn rates_are_taken_as_written(text: Seq<char>, n: nat)
    requires
        trim(text) == decimal(n),
        n <= u32::MAX,
    ensures
        rate_of(Some(text)) == if n == 0 {
            Rate::Unlimited
        } else {
            Rate::PerMinute(n)
        },
        rate_of(None) == Rate::PerMinute(60),
{
    decimals_read_back(n);
    let s = decimal(n);
    let up = |c: char| ascii_upper(c);
    reveal_strlit("off");
    reveal_strlit("unlimited");
    assert('0' <= s[0] <= '9');
    assert(s.map_values(up)[0] == s[0]);
    assert("off"@.map_values(up)[0] == 'O');
    assert("unlimited"@.map_values(up)[0] == 'U');
    assert(!equals_ignoring_case(s, "off"@)) by {
        if equals_ignoring_case(s, "off"@) {
            assert(s.map_values(up) == "off"@.map_values(up));
        }
    }
    assert(!equals_ignoring_case(s, "unlimited"@)) by {
        if equals_ignoring_case(s, "unlimited"@) {
            assert(s.map_values(up) == "unlimited"@.map_values(up));
        }
    }
}

/// The laws on replies and on pacing hold of what is computed: of whatever
/// [`AlphaVantage::fetch`] and [`interval_from_rpm`] return, and of what
/// [`AlphaVantage::query`] asks.
pub proof fn laws_hold_of_the_provider<N: Numerics>(
    source: &AlphaVantage,
    num: &N,
    ticker: &str,
    reply: &Reply,
    today: &str,
    result: Result<PriceSnapshot, String>,
    setting: Option<&str>,
    interval: Result<Option<u64>, String>,
    parameters: Vec<Parameter>,
)
    ensures
        call_ensures(AlphaVantage::fetch::<N>, (source, num, ticker, reply, today), result)
            ==> understood(num, source.key@, ticker@, *reply, today@, result),
        call_ensures(interval_from_rpm, (setting,), interval) ==> match rate_of(
            optional_str(setting),
        ) {
            Rate::Unlimited => interval is Ok && interval->Ok_0 is None,
            Rate::PerMinute(rpm) => interval is Ok && interval->Ok_0 is Some
                && interval->Ok_0->0 as nat == spacing(rpm),
            Rate::Unreadable => interval is Err,
        },
        call_ensures(AlphaVantage::query, (source, ticker), parameters) ==> parameters@.len() == 4
            && parameters@[1].value@ == ticker@ && parameters@[3].value@ == source.key@,
{
    if call_ensures(AlphaVantage::query, (source, ticker), parameters) {
        let asked = parameter_views(parameters@);
        assert(asked.len() == 4);
        assert(asked[1] == parameters@[1]@ && asked[3] == parameters@[3]@);
    }
}

} // verus!
