//! The command line client: what a command asks of the daemon, and how the
//! answer is put in lines.

use vstd::prelude::*;

use crate::config::optional_str;
use crate::format::{digits_as, plain, shows, write_plain, written_as};
use crate::number::{fixed_as, product, shown_as, Number, Numerics};
use crate::portfolio::zero;
use crate::proto::{
    BandPoint, HistoryPoint, HoldingRow, PortfolioSummary, Request, RequestView, Response,
    TickerHistory, TransactionRow,
};
use crate::provider::optional_text;
use crate::provider_cmd::{list_lines, list_of, status_lines, status_text};
use crate::text::{
    decimal, decimal_text, holds, lemma_holds_itself, lemma_padding_holds,
    lemma_padding_right_holds, lemma_parts_hold, pad_left, pad_right, push_left_aligned,
    push_right_aligned, same, uppercase, views,
};

verus! {

/// A command.
#[derive(Debug, Clone)]
pub enum Command {
    Ping,
    Summary,
    Holdings,
    History { ticker: String },
    Buy { ticker: String, shares: Number, price: Option<Number> },
    Sell { ticker: String, shares: Number },
    Refresh { force: bool },
    Transactions { ticker: Option<String> },
    Provider(ProviderCommand),
}

/// A command on the provider.
#[derive(Debug, Clone)]
pub enum ProviderCommand {
    Status,
    List,
    /// Choose one. What is missing is asked for first.
    Choose,
    Clear,
}

/// What a command asks of the daemon; to choose a provider takes more than the
/// command.
pub open spec fn asked_by(cmd: Command) -> Option<RequestView> {
    match cmd {
        Command::Ping => Some(RequestView::Ping),
        Command::Summary => Some(RequestView::Summary),
        Command::Holdings => Some(RequestView::Holdings),
        Command::History { ticker } => Some(RequestView::History { ticker: ticker@ }),
        Command::Buy { ticker, shares, price } => Some(
            RequestView::Buy { ticker: ticker@, shares, price },
        ),
        Command::Sell { ticker, shares } => Some(RequestView::Sell { ticker: ticker@, shares }),
        Command::Refresh { force } => Some(RequestView::Refresh { force }),
        Command::Transactions { ticker } => Some(
            RequestView::Transactions { ticker: optional_text(ticker) },
        ),
        Command::Provider(ProviderCommand::Status) => Some(RequestView::ProviderStatus),
        Command::Provider(ProviderCommand::List) => Some(RequestView::ProviderStatus),
        Command::Provider(ProviderCommand::Clear) => Some(RequestView::ClearProvider),
        Command::Provider(ProviderCommand::Choose) => None,
    }
}

/// What a command asks of the daemon.
pub fn request_for(cmd: &Command) -> (req: Option<Request>)
    ensures
        match req {
            Some(r) => asked_by(*cmd) == Some(r@),
            None => asked_by(*cmd) is None,
        },
{
    match cmd {
        Command::Ping => Some(Request::Ping),
        Command::Summary => Some(Request::Summary),
        Command::Holdings => Some(Request::Holdings),
        Command::History { ticker } => Some(Request::History { ticker: ticker.clone() }),
        Command::Buy { ticker, shares, price } => Some(
            Request::Buy { ticker: ticker.clone(), shares: *shares, price: *price },
        ),
        Command::Sell { ticker, shares } => Some(
            Request::Sell { ticker: ticker.clone(), shares: *shares },
        ),
        Command::Refresh { force } => Some(Request::Refresh { force: *force }),
        Command::Transactions { ticker } => Some(
            Request::Transactions {
                ticker: match ticker {
                    Some(t) => Some(t.clone()),
                    None => None,
                },
            },
        ),
        Command::Provider(p) => match p {
            ProviderCommand::Status => Some(Request::ProviderStatus),
            ProviderCommand::List => Some(Request::ProviderStatus),
            ProviderCommand::Clear => Some(Request::ClearProvider),
            ProviderCommand::Choose => None,
        },
    }
}

/// The exit code of a command whose answer is put out as it came.
pub fn raw_exit_code(resp: &Response) -> (code: u8)
    ensures
        code == if *resp is Error {
            1u8
        } else {
            0
        },
{
    match resp {
        Response::Error { .. } => 1,
        _ => 0,
    }
}

/// A plus sign for what is not negative.
pub open spec fn sign_of(n: Number) -> Seq<char> {
    if n.not_below(zero()) {
        "+"@
    } else {
        ""@
    }
}

fn sign(n: Number) -> (s: &'static str)
    ensures
        s@ == sign_of(n),
{
    if n.at_least(Number::zero()) {
        "+"
    } else {
        ""
    }
}

/// The digits of a number with so many places.
fn digits<N: Numerics>(num: &N, n: Number, places: usize) -> (d: String)
    ensures
        digits_as(num, n, plain(places), d@),
{
    let d = num.fixed(n, places);
    assert(digits_as(num, n, plain(places), d@));
    d
}

/// The numbers of a holding in writing.
pub struct HoldingDigits {
    pub shares: Seq<char>,
    pub avg_cost: Seq<char>,
    pub price: Seq<char>,
    pub value: Seq<char>,
    pub weight: Seq<char>,
    pub gain: Seq<char>,
    pub gain_pct: Seq<char>,
}

/// `d` is an outcome of writing the numbers of a holding.
pub open spec fn holding_digits<N: Numerics>(num: &N, r: HoldingRow, d: HoldingDigits) -> bool {
    &&& digits_as(num, r.shares, plain(4), d.shares)
    &&& digits_as(num, r.avg_cost, plain(2), d.avg_cost)
    &&& digits_as(num, r.current_price, plain(2), d.price)
    &&& digits_as(num, r.value, plain(2), d.value)
    &&& digits_as(num, r.weight, plain(1), d.weight)
    &&& digits_as(num, r.gain, plain(2), d.gain)
    &&& digits_as(num, r.gain_pct, plain(2), d.gain_pct)
}

/// The line of a holding. When it was updated is left out where that is when
/// everything was.
pub open spec fn holding_text(
    r: HoldingRow,
    d: HoldingDigits,
    asof: Option<Seq<char>>,
) -> Seq<char> {
    pad_right(r.ticker@, 8) + " "@ + pad_left(d.shares, 10) + " "@ + pad_left(
        "$"@ + d.avg_cost,
        10,
    ) + " "@ + pad_left("$"@ + d.price, 10) + " "@ + pad_left("$"@ + d.value, 12) + " "@ + pad_left(
        d.weight,
        6,
    ) + "% "@ + pad_left(sign_of(r.gain) + "$"@ + d.gain, 12) + " "@ + pad_left(d.gain_pct, 8)
        + "%  "@ + if asof == Some(r.last_updated@) {
        "—"@
    } else {
        r.last_updated@
    }
}

/// `line` is an outcome of putting a holding in a line.
pub open spec fn holding_line<N: Numerics>(
    num: &N,
    r: HoldingRow,
    asof: Option<Seq<char>>,
    line: Seq<char>,
) -> bool {
    exists|d: HoldingDigits| #[trigger] holding_digits(num, r, d) && line == holding_text(r, d, asof)
}

fn prefixed(before: &str, text: &str) -> (s: String)
    ensures
        s@ == before@ + text@,
{
    before.to_owned().concat(text)
}

fn write_holding<N: Numerics>(num: &N, r: &HoldingRow, asof: Option<&str>) -> (line: String)
    ensures
        holding_line(num, *r, optional_str(asof), line@),
{
    let shares = digits(num, r.shares, 4);
    let avg_cost = digits(num, r.avg_cost, 2);
    let price = digits(num, r.current_price, 2);
    let value = digits(num, r.value, 2);
    let weight = digits(num, r.weight, 1);
    let gain = digits(num, r.gain, 2);
    let gain_pct = digits(num, r.gain_pct, 2);
    let ghost d = HoldingDigits {
        shares: shares@,
        avg_cost: avg_cost@,
        price: price@,
        value: value@,
        weight: weight@,
        gain: gain@,
        gain_pct: gain_pct@,
    };
    assert(holding_digits(num, *r, d));
    let mut signed = sign(r.gain).to_owned();
    signed.append("$");
    signed.append(gain.as_str());
    let as_all = match asof {
        Some(day) => same(day, r.last_updated.as_str()),
        None => false,
    };
    let mut line = String::new();
    push_left_aligned(&mut line, r.ticker.as_str(), 8);
    assert(line@ =~= pad_right(r.ticker@, 8));
    line.append(" ");
    push_right_aligned(&mut line, shares.as_str(), 10);
    line.append(" ");
    push_right_aligned(&mut line, prefixed("$", avg_cost.as_str()).as_str(), 10);
    line.append(" ");
    push_right_aligned(&mut line, prefixed("$", price.as_str()).as_str(), 10);
    line.append(" ");
    push_right_aligned(&mut line, prefixed("$", value.as_str()).as_str(), 12);
    line.append(" ");
    push_right_aligned(&mut line, weight.as_str(), 6);
    line.append("% ");
    push_right_aligned(&mut line, signed.as_str(), 12);
    line.append(" ");
    push_right_aligned(&mut line, gain_pct.as_str(), 8);
    line.append("%  ");
    if as_all {
        line.append("—");
    } else {
        line.append(r.last_updated.as_str());
    }
    assert(line@ == holding_text(*r, d, optional_str(asof)));
    line
}

/// The head of the list of holdings.
pub const HOLDINGS_HEAD: &'static str = "Ticker       Shares   Avg Cost      Price        Value  Weight         Gain    Return  Updated";

/// `lines` is an outcome of listing the holdings.
pub open spec fn holdings_listed<N: Numerics>(
    num: &N,
    rows: Seq<HoldingRow>,
    asof: Option<Seq<char>>,
    lines: Seq<Seq<char>>,
) -> bool {
    if rows.len() == 0 {
        lines == seq!["No holdings."@]
    } else {
        &&& lines.len() == rows.len() + 1
        &&& lines[0] == HOLDINGS_HEAD@
        &&& forall|i: int|
            0 <= i < rows.len() ==> holding_line(num, #[trigger] rows[i], asof, lines[i + 1])
    }
}

/// Lists the holdings.
pub fn holdings_lines<N: Numerics>(num: &N, rows: &Vec<HoldingRow>, asof: Option<&str>) -> (lines:
    Vec<String>)
    ensures
        holdings_listed(num, rows@, optional_str(asof), views(lines@)),
{
    let mut lines: Vec<String> = Vec::new();
    if rows.len() == 0 {
        lines.push("No holdings.".to_owned());
        assert(views(lines@) =~= seq!["No holdings."@]);
        return lines;
    }
    lines.push(HOLDINGS_HEAD.to_owned());
    let mut i: usize = 0;
    while i < rows.len()
        invariant
            i <= rows@.len(),
            lines@.len() == i + 1,
            lines@[0]@ == HOLDINGS_HEAD@,
            forall|k: int|
                0 <= k < i ==> holding_line(
                    num,
                    #[trigger] rows@[k],
                    optional_str(asof),
                    lines@[k + 1]@,
                ),
        decreases rows@.len() - i,
    {
        let line = write_holding(num, &rows[i], asof);
        lines.push(line);
        i = i + 1;
    }
    let ghost all = views(lines@);
    assert forall|k: int| 0 <= k < rows@.len() implies holding_line(
        num,
        #[trigger] rows@[k],
        optional_str(asof),
        all[k + 1],
    ) by {
        assert(all[k + 1] == lines@[k + 1]@);
    }
    lines
}

/// When everything was last refreshed.
pub open spec fn refresh_of(s: PortfolioSummary) -> Seq<char> {
    match s.last_refresh {
        Some(day) => day@,
        None => "never"@,
    }
}

/// `lines` is an outcome of putting out a summary: the totals, and then the
/// holdings.
pub open spec fn summary_listed<N: Numerics>(
    num: &N,
    s: PortfolioSummary,
    lines: Seq<Seq<char>>,
) -> bool {
    let plus = sign_of(s.total_gain);
    &&& lines.len() >= 5
    &&& lines[0] == "Portfolio summary (last refresh "@ + refresh_of(s) + ")"@
    &&& exists|value: Seq<char>| #[trigger]
        digits_as(num, s.total_value, plain(2), value) && lines[1] == "  Value:  $"@ + value
    &&& exists|cost: Seq<char>| #[trigger]
        digits_as(num, s.total_cost, plain(2), cost) && lines[2] == "  Cost:   $"@ + cost
    &&& exists|gain: Seq<char>, pct: Seq<char>| #[trigger]
        digits_as(num, s.total_gain, plain(2), gain) && #[trigger] digits_as(
            num,
            s.total_gain_pct,
            plain(2),
            pct,
        ) && lines[3] == "  Gain:   "@ + plus + "$"@ + gain + " ("@ + plus + pct + "%)"@
    &&& lines[4] == ""@
    &&& holdings_listed(num, s.rows@, Some(refresh_of(s)), lines.skip(5))
}

/// Puts out a summary.
pub fn summary_lines<N: Numerics>(num: &N, s: &PortfolioSummary) -> (lines: Vec<String>)
    ensures
        summary_listed(num, *s, views(lines@)),
{
    let asof: &str = match &s.last_refresh {
        Some(day) => day.as_str(),
        None => "never",
    };
    let mut lines: Vec<String> = Vec::new();
    let mut line = "Portfolio summary (last refresh ".to_owned();
    line.append(asof);
    line.append(")");
    lines.push(line);
    let value = digits(num, s.total_value, 2);
    lines.push(prefixed("  Value:  $", value.as_str()));
    let cost = digits(num, s.total_cost, 2);
    lines.push(prefixed("  Cost:   $", cost.as_str()));
    let gain = digits(num, s.total_gain, 2);
    let pct = digits(num, s.total_gain_pct, 2);
    let plus = sign(s.total_gain);
    let mut line = "  Gain:   ".to_owned();
    line.append(plus);
    line.append("$");
    line.append(gain.as_str());
    line.append(" (");
    line.append(plus);
    line.append(pct.as_str());
    line.append("%)");
    lines.push(line);
    lines.push("".to_owned());
    let mut rest = holdings_lines(num, &s.rows, Some(asof));
    let ghost head = views(lines@);
    let ghost tail = views(rest@);
    lines.append(&mut rest);
    proof {
        let all = views(lines@);
        assert(all =~= head + tail);
        assert(all.skip(5) =~= tail);
        assert(all[0] == head[0] && all[1] == head[1] && all[2] == head[2] && all[3] == head[3]
            && all[4] == head[4]);
        assert(digits_as(num, s.total_value, plain(2), value@));
        assert(digits_as(num, s.total_cost, plain(2), cost@));
        assert(digits_as(num, s.total_gain, plain(2), gain@));
        assert(digits_as(num, s.total_gain_pct, plain(2), pct@));
    }
    lines
}

/// `text` is an outcome of writing a band: a dash where there is none.
pub open spec fn band_text<N: Numerics>(num: &N, band: Option<Number>, text: Seq<char>) -> bool {
    match band {
        Some(n) => digits_as(num, n, plain(2), text),
        None => text == "—"@,
    }
}

fn write_band<N: Numerics>(num: &N, band: Option<Number>) -> (text: String)
    ensures
        band_text(num, band, text@),
{
    match band {
        Some(n) => digits(num, n, 2),
        None => "—".to_owned(),
    }
}

/// The numbers of a day in writing.
pub struct DayDigits {
    pub close: Seq<char>,
    pub sma: Seq<char>,
    pub upper: Seq<char>,
    pub lower: Seq<char>,
}

/// `d` is an outcome of writing the numbers of a day.
pub open spec fn day_digits<N: Numerics>(
    num: &N,
    p: HistoryPoint,
    b: BandPoint,
    d: DayDigits,
) -> bool {
    &&& digits_as(num, p.close, plain(2), d.close)
    &&& band_text(num, b.sma, d.sma)
    &&& band_text(num, b.upper, d.upper)
    &&& band_text(num, b.lower, d.lower)
}

/// `line` is an outcome of putting a day in a line.
pub open spec fn day_line<N: Numerics>(
    num: &N,
    p: HistoryPoint,
    b: BandPoint,
    line: Seq<char>,
) -> bool {
    exists|d: DayDigits| #[trigger]
        day_digits(num, p, b, d) && line == pad_right(p.date@, 12) + " "@ + pad_left(d.close, 9)
            + " "@ + pad_left(d.sma, 9) + " "@ + pad_left(d.upper, 9) + " "@ + pad_left(d.lower, 9)
}

fn write_day<N: Numerics>(num: &N, p: &HistoryPoint, b: &BandPoint) -> (line: String)
    ensures
        day_line(num, *p, *b, line@),
{
    let close = digits(num, p.close, 2);
    let sma = write_band(num, b.sma);
    let upper = write_band(num, b.upper);
    let lower = write_band(num, b.lower);
    let ghost d = DayDigits { close: close@, sma: sma@, upper: upper@, lower: lower@ };
    assert(day_digits(num, *p, *b, d));
    let mut line = String::new();
    push_left_aligned(&mut line, p.date.as_str(), 12);
    assert(line@ =~= pad_right(p.date@, 12));
    line.append(" ");
    push_right_aligned(&mut line, close.as_str(), 9);
    line.append(" ");
    push_right_aligned(&mut line, sma.as_str(), 9);
    line.append(" ");
    push_right_aligned(&mut line, upper.as_str(), 9);
    line.append(" ");
    push_right_aligned(&mut line, lower.as_str(), 9);
    line
}

/// `line` is an outcome of putting a position in a line.
pub open spec fn position_line<N: Numerics>(num: &N, r: HoldingRow, line: Seq<char>) -> bool {
    exists|d: HoldingDigits| #[trigger]
        holding_digits(num, r, d) && line == "Holding: "@ + d.shares + " sh, avg $"@ + d.avg_cost
            + ", value $"@ + d.value + ", gain "@ + sign_of(r.gain) + "$"@ + d.gain + " ("@
            + sign_of(r.gain) + d.gain_pct + "%)"@
}

fn write_position<N: Numerics>(num: &N, r: &HoldingRow) -> (line: String)
    ensures
        position_line(num, *r, line@),
{
    let shares = digits(num, r.shares, 4);
    let avg_cost = digits(num, r.avg_cost, 2);
    let price = digits(num, r.current_price, 2);
    let value = digits(num, r.value, 2);
    let weight = digits(num, r.weight, 1);
    let gain = digits(num, r.gain, 2);
    let gain_pct = digits(num, r.gain_pct, 2);
    let ghost d = HoldingDigits {
        shares: shares@,
        avg_cost: avg_cost@,
        price: price@,
        value: value@,
        weight: weight@,
        gain: gain@,
        gain_pct: gain_pct@,
    };
    assert(holding_digits(num, *r, d));
    let plus = sign(r.gain);
    let mut line = "Holding: ".to_owned();
    line.append(shares.as_str());
    line.append(" sh, avg $");
    line.append(avg_cost.as_str());
    line.append(", value $");
    line.append(value.as_str());
    line.append(", gain ");
    line.append(plus);
    line.append("$");
    line.append(gain.as_str());
    line.append(" (");
    line.append(plus);
    line.append(gain_pct.as_str());
    line.append("%)");
    line
}

/// The head of the list of days.
pub const DAYS_HEAD: &'static str = "Date             Close   SMA(20)     Upper     Lower";

/// How many days are listed at most.
pub const DAYS_LISTED: usize = 10;

/// The first day that is listed.
pub open spec fn first_listed(n: nat) -> int {
    if n > DAYS_LISTED {
        n - DAYS_LISTED
    } else {
        0
    }
}

/// The date of the first or last point; a question mark where there is none.
pub open spec fn date_or_mark(points: Seq<HistoryPoint>, at: int) -> Seq<char> {
    if 0 <= at < points.len() {
        points[at].date@
    } else {
        "?"@
    }
}

/// `lines` is an outcome of listing the last days.
pub open spec fn days_listed<N: Numerics>(
    num: &N,
    h: TickerHistory,
    lines: Seq<Seq<char>>,
) -> bool {
    let n = h.points@.len();
    let start = first_listed(n);
    if n < 2 {
        lines.len() == 0
    } else {
        &&& lines.len() == n - start + 2
        &&& lines[0] == ""@
        &&& lines[1] == DAYS_HEAD@
        &&& forall|i: int|
            start <= i < n ==> day_line(
                num,
                #[trigger] h.points@[i],
                h.bands@[i],
                lines[i - start + 2],
            )
    }
}

/// `lines` is an outcome of putting out a history: the price, the position if
/// there is one, and the last days.
pub open spec fn history_listed<N: Numerics>(
    num: &N,
    h: TickerHistory,
    lines: Seq<Seq<char>>,
) -> bool {
    let k: int = if h.holding is Some {
        2
    } else {
        1
    };
    let n = h.points@.len();
    &&& lines.len() > k
    &&& exists|price: Seq<char>| #[trigger]
        digits_as(num, h.current_price, plain(2), price) && lines[0] == h.ticker@
            + " — current $"@ + price + " (cached "@ + h.last_updated@ + ")"@
    &&& h.holding is Some ==> position_line(num, h.holding->0, lines[1])
    &&& lines[k] == "History: "@ + decimal(n) + " daily closes from "@ + date_or_mark(h.points@, 0)
        + " to "@ + date_or_mark(h.points@, n - 1)
    &&& days_listed(num, h, lines.skip(k + 1))
}

/// Whether every day that is listed has its bands.
pub open spec fn bands_suffice(h: TickerHistory) -> bool {
    h.points@.len() < 2 || h.bands@.len() >= h.points@.len()
}

fn days_lines<N: Numerics>(num: &N, h: &TickerHistory) -> (lines: Vec<String>)
    requires
        bands_suffice(*h),
    ensures
        days_listed(num, *h, views(lines@)),
{
    let mut lines: Vec<String> = Vec::new();
    let n: usize = h.points.len();
    if n < 2 {
        return lines;
    }
    lines.push("".to_owned());
    lines.push(DAYS_HEAD.to_owned());
    let start: usize = if n > DAYS_LISTED {
        n - DAYS_LISTED
    } else {
        0
    };
    let mut i: usize = start;
    while i < n
        invariant
            start <= i <= n,
            n == h.points@.len(),
            start == first_listed(n as nat),
            h.bands@.len() >= n,
            lines@.len() == i - start + 2,
            lines@[0]@ == ""@,
            lines@[1]@ == DAYS_HEAD@,
            forall|k: int|
                start <= k < i ==> day_line(
                    num,
                    #[trigger] h.points@[k],
                    h.bands@[k],
                    lines@[k - start + 2]@,
                ),
        decreases n - i,
    {
        let line = write_day(num, &h.points[i], &h.bands[i]);
        lines.push(line);
        i = i + 1;
    }
    let ghost all = views(lines@);
    assert forall|k: int| start <= k < n implies day_line(
        num,
        #[trigger] h.points@[k],
        h.bands@[k],
        all[k - start + 2],
    ) by {
        assert(all[k - start + 2] == lines@[k - start + 2]@);
    }
    lines
}

/// Puts out a history.
pub fn history_lines<N: Numerics>(num: &N, h: &TickerHistory) -> (lines: Vec<String>)
    requires
        bands_suffice(*h),
    ensures
        history_listed(num, *h, views(lines@)),
{
    let mut lines: Vec<String> = Vec::new();
    let n: usize = h.points.len();
    let price = digits(num, h.current_price, 2);
    let mut line = h.ticker.clone();
    line.append(" — current $");
    line.append(price.as_str());
    line.append(" (cached ");
    line.append(h.last_updated.as_str());
    line.append(")");
    lines.push(line);
    match &h.holding {
        Some(pos) => {
            lines.push(write_position(num, pos));
        },
        None => {},
    }
    let first: &str = if n > 0 {
        h.points[0].date.as_str()
    } else {
        "?"
    };
    let last: &str = if n > 0 {
        h.points[n - 1].date.as_str()
    } else {
        "?"
    };
    let mut line = "History: ".to_owned();
    line.append(decimal_text(n as u64).as_str());
    line.append(" daily closes from ");
    line.append(first);
    line.append(" to ");
    line.append(last);
    lines.push(line);
    let ghost head = views(lines@);
    let mut rest = days_lines(num, h);
    let ghost tail = views(rest@);
    lines.append(&mut rest);
    proof {
        let all = views(lines@);
        let k: int = if h.holding is Some {
            2
        } else {
            1
        };
        assert(all =~= head + tail);
        assert(all.skip(k + 1) =~= tail);
        assert(all[0] == head[0] && all[1] == head[1] && all[k] == head[k]);
        assert(digits_as(num, h.current_price, plain(2), price@));
    }
    lines
}

/// The numbers of a line of the ledger in writing.
pub struct TradeDigits {
    pub shares: Seq<char>,
    pub price: Seq<char>,
    pub total: Seq<char>,
}

/// `d` is an outcome of writing the numbers of a line of the ledger.
pub open spec fn trade_digits<N: Numerics>(
    num: &N,
    t: TransactionRow,
    total: Number,
    d: TradeDigits,
) -> bool {
    &&& product(num, t.shares, t.price, total)
    &&& digits_as(num, t.shares, plain(4), d.shares)
    &&& digits_as(num, t.price, plain(2), d.price)
    &&& digits_as(num, total, plain(2), d.total)
}

/// `line` is an outcome of putting a line of the ledger in a line.
pub open spec fn transaction_line<N: Numerics>(
    num: &N,
    t: TransactionRow,
    line: Seq<char>,
) -> bool {
    exists|total: Number, d: TradeDigits| #[trigger]
        trade_digits(num, t, total, d) && line == pad_right(t.txn_date@, 12) + " "@ + pad_right(
            t.ticker@,
            8,
        ) + " "@ + pad_left(sign_of(t.shares) + d.shares, 10) + " "@ + pad_left("$"@ + d.price, 10)
            + " "@ + pad_left(sign_of(total) + "$"@ + d.total, 14)
}

fn write_transaction<N: Numerics>(num: &N, t: &TransactionRow) -> (line: String)
    ensures
        transaction_line(num, *t, line@),
{
    let total = num.times(t.shares, t.price);
    let shares = digits(num, t.shares, 4);
    let price = digits(num, t.price, 2);
    let amount = digits(num, total, 2);
    let ghost d = TradeDigits { shares: shares@, price: price@, total: amount@ };
    assert(product(num, t.shares, t.price, total));
    assert(trade_digits(num, *t, total, d));
    let mut signed_total = sign(total).to_owned();
    signed_total.append("$");
    signed_total.append(amount.as_str());
    let mut line = String::new();
    push_left_aligned(&mut line, t.txn_date.as_str(), 12);
    assert(line@ =~= pad_right(t.txn_date@, 12));
    line.append(" ");
    push_left_aligned(&mut line, t.ticker.as_str(), 8);
    line.append(" ");
    push_right_aligned(&mut line, prefixed(sign(t.shares), shares.as_str()).as_str(), 10);
    line.append(" ");
    push_right_aligned(&mut line, prefixed("$", price.as_str()).as_str(), 10);
    line.append(" ");
    push_right_aligned(&mut line, signed_total.as_str(), 14);
    line
}

/// The head of the list of transactions.
pub const TRANSACTIONS_HEAD: &'static str = "Date         Ticker       Shares      Price          Total";

/// `lines` is an outcome of listing the ledger, or what it says of one ticker.
pub open spec fn transactions_listed<N: Numerics>(
    num: &N,
    rows: Seq<TransactionRow>,
    filter: Option<Seq<char>>,
    lines: Seq<Seq<char>>,
) -> bool {
    if rows.len() == 0 {
        lines == seq![
            match filter {
                Some(t) => "No transactions for "@ + t + "."@,
                None => "No transactions."@,
            },
        ]
    } else {
        &&& lines.len() == rows.len() + 1
        &&& lines[0] == TRANSACTIONS_HEAD@
        &&& forall|i: int|
            0 <= i < rows.len() ==> transaction_line(num, #[trigger] rows[i], lines[i + 1])
    }
}

/// Lists the ledger.
pub fn transactions_lines<N: Numerics>(
    num: &N,
    rows: &Vec<TransactionRow>,
    filter: &Option<String>,
) -> (lines: Vec<String>)
    ensures
        transactions_listed(num, rows@, optional_text(*filter), views(lines@)),
{
    let mut lines: Vec<String> = Vec::new();
    if rows.len() == 0 {
        match filter {
            Some(t) => {
                let mut line = "No transactions for ".to_owned();
                line.append(t.as_str());
                line.append(".");
                lines.push(line);
                assert(views(lines@) =~= seq!["No transactions for "@ + t@ + "."@]);
            },
            None => {
                lines.push("No transactions.".to_owned());
                assert(views(lines@) =~= seq!["No transactions."@]);
            },
        }
        return lines;
    }
    lines.push(TRANSACTIONS_HEAD.to_owned());
    let mut i: usize = 0;
    while i < rows.len()
        invariant
            i <= rows@.len(),
            lines@.len() == i + 1,
            lines@[0]@ == TRANSACTIONS_HEAD@,
            forall|k: int|
                0 <= k < i ==> transaction_line(num, #[trigger] rows@[k], lines@[k + 1]@),
        decreases rows@.len() - i,
    {
        let line = write_transaction(num, &rows[i]);
        lines.push(line);
        i = i + 1;
    }
    let ghost all = views(lines@);
    assert forall|k: int| 0 <= k < rows@.len() implies transaction_line(
        num,
        #[trigger] rows@[k],
        all[k + 1],
    ) by {
        assert(all[k + 1] == lines@[k + 1]@);
    }
    lines
}

/// What comes of a command.
#[derive(Debug, Clone)]
pub enum Outcome {
    /// Lines to put out.
    Said { lines: Vec<String> },
    /// The daemon's error.
    Refused { message: String },
    /// An answer that no command of this kind gets.
    Unexpected,
}

impl Outcome {
    /// 0 for success, 1 for an error of the daemon, 2 for anything else.
    pub open spec fn code(self) -> u8 {
        match self {
            Outcome::Said { .. } => 0,
            Outcome::Refused { .. } => 1,
            Outcome::Unexpected => 2,
        }
    }

    /// The exit code.
    pub fn exit_code(&self) -> (code: u8)
        ensures
            code == self.code(),
    {
        match self {
            Outcome::Said { .. } => 0,
            Outcome::Refused { .. } => 1,
            Outcome::Unexpected => 2,
        }
    }
}

/// Whether these lines are put out.
pub open spec fn says(outcome: Outcome, lines: Seq<Seq<char>>) -> bool {
    outcome matches Outcome::Said { lines: l } && views(l@) == lines
}

/// `line` is an outcome of saying what was bought.
pub open spec fn bought_line<N: Numerics>(
    num: &N,
    ticker: Seq<char>,
    shares: Number,
    price: Option<Number>,
    line: Seq<char>,
) -> bool {
    exists|amount: Seq<char>, at: Seq<char>|
        {
            &&& #[trigger] shown_as(num, shares, amount)
            &&& #[trigger] price_text(num, price, at)
            &&& line == "ok — bought "@ + amount + " "@ + uppercase(ticker) + " @ "@ + at
                + " (simulated)"@
        }
}

/// `text` is an outcome of writing the price of a purchase.
pub open spec fn price_text<N: Numerics>(num: &N, price: Option<Number>, text: Seq<char>) -> bool {
    match price {
        Some(p) => written_as(num, p, plain(2), "$"@, ""@, text),
        None => text == "today's close"@,
    }
}

/// `line` is an outcome of saying what was sold.
pub open spec fn sold_line<N: Numerics>(
    num: &N,
    ticker: Seq<char>,
    shares: Number,
    line: Seq<char>,
) -> bool {
    exists|amount: Seq<char>| #[trigger]
        shown_as(num, shares, amount) && line == "ok — sold "@ + amount + " "@ + uppercase(ticker)
            + " @ today's close (simulated)"@
}

fn write_bought<N: Numerics>(num: &N, ticker: &str, shares: Number, price: Option<Number>) -> (line:
    String)
    ensures
        bought_line(num, ticker@, shares, price, line@),
{
    let amount = num.show(shares);
    assert(shown_as(num, shares, amount@));
    let at = match price {
        Some(p) => write_plain(num, p, 2, "$", ""),
        None => "today's close".to_owned(),
    };
    assert(price_text(num, price, at@));
    let mut line = "ok — bought ".to_owned();
    line.append(amount.as_str());
    line.append(" ");
    line.append(ticker.to_uppercase().as_str());
    line.append(" @ ");
    line.append(at.as_str());
    line.append(" (simulated)");
    line
}

fn write_sold<N: Numerics>(num: &N, ticker: &str, shares: Number) -> (line: String)
    ensures
        sold_line(num, ticker@, shares, line@),
{
    let amount = num.show(shares);
    assert(shown_as(num, shares, amount@));
    let mut line = "ok — sold ".to_owned();
    line.append(amount.as_str());
    line.append(" ");
    line.append(ticker.to_uppercase().as_str());
    line.append(" @ today's close (simulated)");
    line
}

fn say(line: String) -> (outcome: Outcome)
    ensures
        says(outcome, seq![line@]),
{
    let mut lines: Vec<String> = Vec::new();
    let ghost l = line@;
    lines.push(line);
    assert(views(lines@) =~= seq![l]);
    Outcome::Said { lines }
}

fn say_then(first: &str, rest: Vec<String>) -> (outcome: Outcome)
    ensures
        says(outcome, seq![first@, ""@] + views(rest@)),
{
    let mut lines: Vec<String> = Vec::new();
    lines.push(first.to_owned());
    lines.push("".to_owned());
    let ghost tail = views(rest@);
    let mut rest = rest;
    lines.append(&mut rest);
    assert(views(lines@) =~= seq![first@, ""@] + tail);
    Outcome::Said { lines }
}

/// `outcome` is an outcome of putting an answer in lines.
pub open spec fn told<N: Numerics>(num: &N, cmd: Command, resp: Response, outcome: Outcome) -> bool {
    match (cmd, resp) {
        (_, Response::Error { message }) => outcome == (Outcome::Refused { message }),
        (Command::Ping, Response::Pong) => says(outcome, seq!["pong"@]),
        (Command::Summary, Response::Summary(s)) => outcome matches Outcome::Said { lines }
            && summary_listed(num, s, views(lines@)),
        (Command::Holdings, Response::Holdings { rows }) => outcome matches Outcome::Said { lines }
            && holdings_listed(num, rows@, None, views(lines@)),
        (Command::History { .. }, Response::History(h)) => outcome matches Outcome::Said { lines }
            && history_listed(num, h, views(lines@)),
        (Command::Buy { ticker, shares, price }, Response::Done) => outcome matches Outcome::Said {
            lines,
        } && lines@.len() == 1 && bought_line(num, ticker@, shares, price, lines@[0]@),
        (Command::Sell { ticker, shares }, Response::Done) => outcome matches Outcome::Said {
            lines,
        } && lines@.len() == 1 && sold_line(num, ticker@, shares, lines@[0]@),
        (Command::Refresh { force }, Response::Done) => says(
            outcome,
            seq![
                if force {
                    "ok — every held ticker re-fetched"@
                } else {
                    "ok — held tickers without today's close refreshed"@
                },
            ],
        ),
        (Command::Transactions { ticker }, Response::Transactions { rows }) => {
            outcome matches Outcome::Said { lines } && transactions_listed(
                num,
                rows@,
                optional_text(ticker),
                views(lines@),
            )
        },
        (Command::Provider(ProviderCommand::List), Response::ProviderStatus(st)) => says(
            outcome,
            list_of(st),
        ),
        (Command::Provider(ProviderCommand::Choose), Response::ProviderStatus(st)) => says(
            outcome,
            seq!["ok — provider configured"@, ""@] + status_text(st),
        ),
        (Command::Provider(ProviderCommand::Clear), Response::ProviderStatus(st)) => says(
            outcome,
            seq!["ok — provider cleared, stored key erased"@, ""@] + status_text(st),
        ),
        (Command::Provider(ProviderCommand::Status), Response::ProviderStatus(st)) => says(
            outcome,
            status_text(st),
        ),
        _ => outcome is Unexpected,
    }
}

/// Puts an answer in lines.
pub fn print_human<N: Numerics>(num: &N, cmd: &Command, resp: &Response) -> (outcome: Outcome)
    requires
        *cmd is History ==> (*resp matches Response::History(h) ==> bands_suffice(h)),
    ensures
        told(num, *cmd, *resp, outcome),
{
    match (cmd, resp) {
        (_, Response::Error { message }) => Outcome::Refused { message: message.clone() },
        (Command::Ping, Response::Pong) => say("pong".to_owned()),
        (Command::Summary, Response::Summary(s)) => Outcome::Said { lines: summary_lines(num, s) },
        (Command::Holdings, Response::Holdings { rows }) => Outcome::Said {
            lines: holdings_lines(num, rows, None),
        },
        (Command::History { .. }, Response::History(h)) => Outcome::Said {
            lines: history_lines(num, h),
        },
        (Command::Buy { ticker, shares, price }, Response::Done) => {
            let line = write_bought(num, ticker.as_str(), *shares, *price);
            let mut lines: Vec<String> = Vec::new();
            lines.push(line);
            Outcome::Said { lines }
        },
        (Command::Sell { ticker, shares }, Response::Done) => {
            let line = write_sold(num, ticker.as_str(), *shares);
            let mut lines: Vec<String> = Vec::new();
            lines.push(line);
            Outcome::Said { lines }
        },
        (Command::Refresh { force }, Response::Done) => if *force {
            say("ok — every held ticker re-fetched".to_owned())
        } else {
            say("ok — held tickers without today's close refreshed".to_owned())
        },
        (Command::Transactions { ticker }, Response::Transactions { rows }) => Outcome::Said {
            lines: transactions_lines(num, rows, ticker),
        },
        (Command::Provider(ProviderCommand::List), Response::ProviderStatus(st)) => Outcome::Said {
            lines: list_lines(st),
        },
        (Command::Provider(ProviderCommand::Choose), Response::ProviderStatus(st)) => say_then(
            "ok — provider configured",
            status_lines(st),
        ),
        (Command::Provider(ProviderCommand::Clear), Response::ProviderStatus(st)) => say_then(
            "ok — provider cleared, stored key erased",
            status_lines(st),
        ),
        (
            Command::Provider(ProviderCommand::Status),
            Response::ProviderStatus(st),
        ) => Outcome::Said { lines: status_lines(st) },
        _ => Outcome::Unexpected,
    }
}

/// Whether an answer is of the kind that a command gets where all is well.
pub open spec fn answers(resp: Response, cmd: Command) -> bool {
    match cmd {
        Command::Ping => resp is Pong,
        Command::Summary => resp is Summary,
        Command::Holdings => resp is Holdings,
        Command::History { .. } => resp is History,
        Command::Buy { .. } => resp is Done,
        Command::Sell { .. } => resp is Done,
        Command::Refresh { .. } => resp is Done,
        Command::Transactions { .. } => resp is Transactions,
        Command::Provider(_) => resp is ProviderStatus,
    }
}

/// The exit code tells what came of any command: 1 exactly where the daemon
/// answered with an error, whose message is then all that is told; 0 where it
/// answered what the command asks for; 2 where it answered anything else.
pub proof fn exit_codes_tell_the_answer<N: Numerics>(
    num: &N,
    cmd: Command,
    resp: Response,
    outcome: Outcome,
)
    requires
        told(num, cmd, resp, outcome),
    ensures
        outcome.code() == if resp is Error {
            1u8
        } else if answers(resp, cmd) {
            0u8
        } else {
            2u8
        },
        resp matches Response::Error { message } ==> outcome == (Outcome::Refused { message }),
{
}

/// A command asks the daemon for what it says, with what it was given.
pub proof fn commands_ask_for_what_they_say(
    ticker: String,
    shares: Number,
    price: Option<Number>,
    force: bool,
)
    ensures
        asked_by(Command::Ping) == Some(RequestView::Ping),
        asked_by(Command::Summary) == Some(RequestView::Summary),
        asked_by(Command::Holdings) == Some(RequestView::Holdings),
        asked_by(Command::History { ticker }) == Some(RequestView::History { ticker: ticker@ }),
        asked_by(Command::Buy { ticker, shares, price }) == Some(
            RequestView::Buy { ticker: ticker@, shares, price },
        ),
        asked_by(Command::Sell { ticker, shares }) == Some(
            RequestView::Sell { ticker: ticker@, shares },
        ),
        asked_by(Command::Refresh { force }) == Some(RequestView::Refresh { force }),
        asked_by(Command::Transactions { ticker: Some(ticker) }) == Some(
            RequestView::Transactions { ticker: Some(ticker@) },
        ),
        asked_by(Command::Transactions { ticker: None }) == Some(
            RequestView::Transactions { ticker: None },
        ),
        asked_by(Command::Provider(ProviderCommand::Clear)) == Some(RequestView::ClearProvider),
{
}

/// A list of holdings has a line for each, in their order, and the line shows
/// the ticker and every figure of that holding.
pub proof fn holdings_are_listed_with_their_figures<N: Numerics>(
    num: &N,
    rows: Seq<HoldingRow>,
    asof: Option<Seq<char>>,
    lines: Seq<Seq<char>>,
    i: int,
)
    requires
        holdings_listed(num, rows, asof, lines),
        0 <= i < rows.len(),
    ensures
        lines.len() == rows.len() + 1,
        holds(lines[i + 1], rows[i].ticker@),
        shows(num, lines[i + 1], rows[i].shares, 4),
        shows(num, lines[i + 1], rows[i].avg_cost, 2),
        shows(num, lines[i + 1], rows[i].current_price, 2),
        shows(num, lines[i + 1], rows[i].value, 2),
        shows(num, lines[i + 1], rows[i].weight, 1),
        shows(num, lines[i + 1], rows[i].gain, 2),
        shows(num, lines[i + 1], rows[i].gain_pct, 2),
        asof != Some(rows[i].last_updated@) ==> holds(lines[i + 1], rows[i].last_updated@),
{
    broadcast use {
        lemma_parts_hold,
        lemma_holds_itself,
        lemma_padding_holds,
        lemma_padding_right_holds,
    };

    let r = rows[i];
    let line = lines[i + 1];
    let d = choose|d: HoldingDigits| #[trigger]
        holding_digits(num, r, d) && line == holding_text(r, d, asof);
    assert(holds(line, d.shares) && fixed_as(num, r.shares, 4, d.shares));
    assert(holds(line, d.avg_cost) && fixed_as(num, r.avg_cost, 2, d.avg_cost));
    assert(holds(line, d.price) && fixed_as(num, r.current_price, 2, d.price));
    assert(holds(line, d.value) && fixed_as(num, r.value, 2, d.value));
    assert(holds(line, d.weight) && fixed_as(num, r.weight, 1, d.weight));
    assert(holds(line, d.gain) && fixed_as(num, r.gain, 2, d.gain));
    assert(holds(line, d.gain_pct) && fixed_as(num, r.gain_pct, 2, d.gain_pct));
}

/// A summary shows its day and its totals, each in a line of its own, and goes
/// on with the list of its holdings.
pub proof fn summaries_show_their_totals<N: Numerics>(
    num: &N,
    s: PortfolioSummary,
    lines: Seq<Seq<char>>,
)
    requires
        summary_listed(num, s, lines),
    ensures
        lines.len() >= 6,
        s.last_refresh matches Some(day) ==> holds(lines[0], day@),
        shows(num, lines[1], s.total_value, 2),
        shows(num, lines[2], s.total_cost, 2),
        shows(num, lines[3], s.total_gain, 2),
        shows(num, lines[3], s.total_gain_pct, 2),
        s.rows@.len() > 0 ==> lines.len() == s.rows@.len() + 6,
{
    broadcast use {lemma_parts_hold, lemma_holds_itself};

    let value = choose|value: Seq<char>| #[trigger]
        digits_as(num, s.total_value, plain(2), value) && lines[1] == "  Value:  $"@ + value;
    assert(holds(lines[1], value) && fixed_as(num, s.total_value, 2, value));
    let cost = choose|cost: Seq<char>| #[trigger]
        digits_as(num, s.total_cost, plain(2), cost) && lines[2] == "  Cost:   $"@ + cost;
    assert(holds(lines[2], cost) && fixed_as(num, s.total_cost, 2, cost));
    let plus = sign_of(s.total_gain);
    let (gain, pct) = choose|gain: Seq<char>, pct: Seq<char>| #[trigger]
        digits_as(num, s.total_gain, plain(2), gain) && #[trigger] digits_as(
            num,
            s.total_gain_pct,
            plain(2),
            pct,
        ) && lines[3] == "  Gain:   "@ + plus + "$"@ + gain + " ("@ + plus + pct + "%)"@;
    assert(holds(lines[3], gain) && fixed_as(num, s.total_gain, 2, gain));
    assert(holds(lines[3], pct) && fixed_as(num, s.total_gain_pct, 2, pct));
    let rest = lines.skip(5);
    assert(holdings_listed(num, s.rows@, Some(refresh_of(s)), rest));
    assert(rest.len() == if s.rows@.len() == 0 {
        1
    } else {
        s.rows@.len() + 1
    });
}

/// A history shows its price, what is held if anything is, and the last ten
/// days, or all where there are fewer: each with its date, its close and those
/// of its bands that there are.
pub proof fn histories_show_the_last_days<N: Numerics>(
    num: &N,
    h: TickerHistory,
    lines: Seq<Seq<char>>,
    i: int,
)
    requires
        history_listed(num, h, lines),
        h.points@.len() >= 2,
        0 <= i < h.points@.len(),
        i + 10 >= h.points@.len(),
    ensures
        holds(lines[0], h.ticker@),
        shows(num, lines[0], h.current_price, 2),
        lines.len() == (if h.holding is Some {
            4int
        } else {
            3int
        }) + (if h.points@.len() > 10 {
            10
        } else {
            h.points@.len() as int
        }) + 1,
        holds(lines[lines.len() - (h.points@.len() - i)], h.points@[i].date@),
        shows(num, lines[lines.len() - (h.points@.len() - i)], h.points@[i].close, 2),
        h.bands@[i].sma matches Some(n) ==> shows(
            num,
            lines[lines.len() - (h.points@.len() - i)],
            n,
            2,
        ),
        h.bands@[i].upper matches Some(n) ==> shows(
            num,
            lines[lines.len() - (h.points@.len() - i)],
            n,
            2,
        ),
        h.bands@[i].lower matches Some(n) ==> shows(
            num,
            lines[lines.len() - (h.points@.len() - i)],
            n,
            2,
        ),
{
    broadcast use {
        lemma_parts_hold,
        lemma_holds_itself,
        lemma_padding_holds,
        lemma_padding_right_holds,
    };

    let k: int = if h.holding is Some {
        2
    } else {
        1
    };
    let n = h.points@.len() as int;
    let rest = lines.skip(k + 1);
    let start = first_listed(h.points@.len());
    let price = choose|price: Seq<char>| #[trigger]
        digits_as(num, h.current_price, plain(2), price) && lines[0] == h.ticker@
            + " — current $"@ + price + " (cached "@ + h.last_updated@ + ")"@;
    assert(holds(lines[0], price) && fixed_as(num, h.current_price, 2, price));
    assert(day_line(num, h.points@[i], h.bands@[i], rest[i - start + 2]));
    let line = rest[i - start + 2];
    assert(line == lines[lines.len() - (n - i)]);
    let p = h.points@[i];
    let b = h.bands@[i];
    let d = choose|d: DayDigits| #[trigger]
        day_digits(num, p, b, d) && line == pad_right(p.date@, 12) + " "@ + pad_left(d.close, 9)
            + " "@ + pad_left(d.sma, 9) + " "@ + pad_left(d.upper, 9) + " "@ + pad_left(d.lower, 9);
    assert(holds(line, d.close) && fixed_as(num, p.close, 2, d.close));
    assert(holds(line, d.sma) && holds(line, d.upper) && holds(line, d.lower));
    if let Some(n) = b.sma {
        assert(fixed_as(num, n, 2, d.sma));
    }
    if let Some(n) = b.upper {
        assert(fixed_as(num, n, 2, d.upper));
    }
    if let Some(n) = b.lower {
        assert(fixed_as(num, n, 2, d.lower));
    }
}

/// What a history says of a holding shows its shares, its average cost, its
/// value and its gain.
pub proof fn histories_show_the_holding<N: Numerics>(
    num: &N,
    h: TickerHistory,
    row: HoldingRow,
    lines: Seq<Seq<char>>,
)
    requires
        history_listed(num, h, lines),
        h.holding == Some(row),
    ensures
        shows(num, lines[1], row.shares, 4),
        shows(num, lines[1], row.avg_cost, 2),
        shows(num, lines[1], row.value, 2),
        shows(num, lines[1], row.gain, 2),
        shows(num, lines[1], row.gain_pct, 2),
{
    broadcast use {lemma_parts_hold, lemma_holds_itself};

    let line = lines[1];
    let d = choose|d: HoldingDigits| #[trigger]
        holding_digits(num, row, d) && line == "Holding: "@ + d.shares + " sh, avg $"@ + d.avg_cost
            + ", value $"@ + d.value + ", gain "@ + sign_of(row.gain) + "$"@ + d.gain + " ("@
            + sign_of(row.gain) + d.gain_pct + "%)"@;
    assert(holds(line, d.shares) && fixed_as(num, row.shares, 4, d.shares));
    assert(holds(line, d.avg_cost) && fixed_as(num, row.avg_cost, 2, d.avg_cost));
    assert(holds(line, d.value) && fixed_as(num, row.value, 2, d.value));
    assert(holds(line, d.gain) && fixed_as(num, row.gain, 2, d.gain));
    assert(holds(line, d.gain_pct) && fixed_as(num, row.gain_pct, 2, d.gain_pct));
}

/// A list of trades has a line for each, in their order, and the line shows its
/// day, its ticker, its shares, its price, and what the one comes to at the
/// other.
pub proof fn trades_are_listed_with_their_totals<N: Numerics>(
    num: &N,
    rows: Seq<TransactionRow>,
    filter: Option<Seq<char>>,
    lines: Seq<Seq<char>>,
    i: int,
)
    requires
        transactions_listed(num, rows, filter, lines),
        0 <= i < rows.len(),
    ensures
        lines.len() == rows.len() + 1,
        holds(lines[i + 1], rows[i].txn_date@),
        holds(lines[i + 1], rows[i].ticker@),
        shows(num, lines[i + 1], rows[i].shares, 4),
        shows(num, lines[i + 1], rows[i].price, 2),
        exists|total: Number| #[trigger]
            call_ensures(N::times, (num, rows[i].shares, rows[i].price), total) && shows(
                num,
                lines[i + 1],
                total,
                2,
            ),
{
    broadcast use {
        lemma_parts_hold,
        lemma_holds_itself,
        lemma_padding_holds,
        lemma_padding_right_holds,
    };

    let t = rows[i];
    let line = lines[i + 1];
    let (total, d) = choose|total: Number, d: TradeDigits| #[trigger]
        trade_digits(num, t, total, d) && line == pad_right(t.txn_date@, 12) + " "@ + pad_right(
            t.ticker@,
            8,
        ) + " "@ + pad_left(sign_of(t.shares) + d.shares, 10) + " "@ + pad_left("$"@ + d.price, 10)
            + " "@ + pad_left(sign_of(total) + "$"@ + d.total, 14);
    assert(holds(line, d.shares) && fixed_as(num, t.shares, 4, d.shares));
    assert(holds(line, d.price) && fixed_as(num, t.price, 2, d.price));
    assert(holds(line, d.total) && fixed_as(num, total, 2, d.total));
    assert(call_ensures(N::times, (num, t.shares, t.price), total));
}

/// A trade is confirmed with the shares and the ticker that were named, and with
/// the price if one was.
pub proof fn confirmations_say_what_was_traded<N: Numerics>(
    num: &N,
    ticker: Seq<char>,
    shares: Number,
    price: Option<Number>,
    bought: Seq<char>,
    sold: Seq<char>,
)
    requires
        bought_line(num, ticker, shares, price, bought),
        sold_line(num, ticker, shares, sold),
    ensures
        holds(bought, uppercase(ticker)),
        holds(sold, uppercase(ticker)),
        exists|amount: Seq<char>| #[trigger]
            shown_as(num, shares, amount) && holds(bought, amount),
        exists|amount: Seq<char>| #[trigger] shown_as(num, shares, amount) && holds(sold, amount),
        price matches Some(p) ==> shows(num, bought, p, 2),
        price is None ==> holds(bought, "today's close"@),
{
    broadcast use {lemma_parts_hold, lemma_holds_itself};

    let (amount, at) = choose|amount: Seq<char>, at: Seq<char>| #[trigger]
        shown_as(num, shares, amount) && #[trigger] price_text(num, price, at) && bought
            == "ok — bought "@ + amount + " "@ + uppercase(ticker) + " @ "@ + at
            + " (simulated)"@;
    assert(shown_as(num, shares, amount) && holds(bought, amount));
    assert(holds(bought, at));
    if let Some(p) = price {
        let digits = choose|digits: Seq<char>| #[trigger]
            digits_as(num, p, plain(2), digits) && at == "$"@ + pad_left(digits, 0) + ""@;
        assert(fixed_as(num, p, 2, digits));
        assert(pad_left(digits, 0) == digits);
        assert(holds(at, digits));
        assert(holds(bought, digits));
    }
    let named = choose|named: Seq<char>| #[trigger]
        shown_as(num, shares, named) && sold == "ok — sold "@ + named + " "@ + uppercase(ticker)
            + " @ today's close (simulated)"@;
    assert(shown_as(num, shares, named) && holds(sold, named));
}

/// The laws on commands and listings hold of what is printed: of the request
/// that [`request_for`] gives and of whatever [`print_human`] tells. In a raw
/// reply's exit code, an error alone is a failure.
pub proof fn laws_hold_of_what_is_told<N: Numerics>(
    num: &N,
    cmd: &Command,
    req: Option<Request>,
    resp: &Response,
    outcome: Outcome,
    code: u8,
)
    ensures
        call_ensures(request_for, (cmd,), req) ==> (req is Some <==> asked_by(*cmd) is Some) && (
        req is Some ==> asked_by(*cmd)->0 == req->0@),
        call_ensures(print_human::<N>, (num, cmd, resp), outcome) ==> told(
            num,
            *cmd,
            *resp,
            outcome,
        ),
        call_ensures(raw_exit_code, (resp,), code) ==> (code == 0 <==> *resp !is Error),
{
}

} // verus!
