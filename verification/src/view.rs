//! What is on the screen: the texts and their looks, and where the lines of the
//! chart run. How they are drawn is left to the terminal.

use vstd::prelude::*;

use crate::app::{
    fraction_of, JobState, StatusKind, Tab, TradeField, TradeForm, TradeFormView, TradeMode,
    TradeSide,
};
use crate::dates::{ago, day_of, in_words, parse_day, DAY_FORMAT};
use crate::format::{
    columns_show_their_numbers, plain, shows, shows_signed, with_sign, write_number, write_plain,
    write_signed, written_as, Column,
};
use crate::number::{
    difference, product, quotient, rounded, sum, Number, Numerics, INFINITY_BITS, ONE_BITS,
    TWO_BITS,
};
use crate::portfolio::zero;
use crate::proto::{
    BandPoint, HistoryPoint, HoldingRow, PortfolioSummary, TickerHistory, TransactionRow,
};
use crate::provider::{optional_text, ProviderStatus};
use crate::text::{
    decimal, decimal_text, holds, lemma_holds_itself, lemma_parts_hold, push_run, run, views,
};

verus! {

/// The colours in use.
#[derive(Debug, Clone, Copy, PartialEq, Eq, Structural)]
pub enum Color {
    Black,
    Blue,
    Cyan,
    DarkGray,
    Gray,
    Green,
    Magenta,
    Red,
    White,
    Yellow,
}

/// How a text looks. Without a colour it has that of the terminal.
#[derive(Debug, Clone, Copy, PartialEq, Eq, Structural)]
pub struct Look {
    pub fg: Option<Color>,
    pub bg: Option<Color>,
    pub bold: bool,
}

impl Look {
    /// As the terminal has it.
    pub open spec fn unadorned() -> Look {
        Look { fg: None, bg: None, bold: false }
    }

    /// In a colour.
    pub open spec fn of(color: Color) -> Look {
        Look { fg: Some(color), bg: None, bold: false }
    }

    /// Bold in a colour.
    pub open spec fn bold_of(color: Color) -> Look {
        Look { fg: Some(color), bg: None, bold: true }
    }

    /// Bold in a colour on another.
    pub open spec fn badge(bg: Color, fg: Color) -> Look {
        Look { fg: Some(fg), bg: Some(bg), bold: true }
    }
}

fn look(color: Color) -> (l: Look)
    ensures
        l == Look::of(color),
{
    Look { fg: Some(color), bg: None, bold: false }
}

fn bold_look(color: Color) -> (l: Look)
    ensures
        l == Look::bold_of(color),
{
    Look { fg: Some(color), bg: None, bold: true }
}

fn badge_look(bg: Color, fg: Color) -> (l: Look)
    ensures
        l == Look::badge(bg, fg),
{
    Look { fg: Some(fg), bg: Some(bg), bold: true }
}

fn no_look() -> (l: Look)
    ensures
        l == Look::unadorned(),
{
    Look { fg: None, bg: None, bold: false }
}

/// A text with its look.
#[derive(Debug, Clone)]
pub struct Span {
    pub text: String,
    pub look: Look,
}

/// A [`Span`] with its text as a sequence.
#[verifier::ext_equal]
pub struct SpanView {
    pub text: Seq<char>,
    pub look: Look,
}

impl View for Span {
    type V = SpanView;

    open spec fn view(&self) -> SpanView {
        SpanView { text: self.text@, look: self.look }
    }
}

/// The views of the spans.
pub open spec fn span_views(spans: Seq<Span>) -> Seq<SpanView> {
    spans.map_values(|s: Span| s@)
}

fn span(text: &str, look: Look) -> (s: Span)
    ensures
        s@ == (SpanView { text: text@, look }),
{
    Span { text: text.to_owned(), look }
}

/// How many lines the footer takes: one more while a job is in flight.
pub fn footer_height(busy: bool) -> (lines: u16)
    ensures
        lines == if busy {
            3u16
        } else {
            2
        },
{
    if busy {
        3
    } else {
        2
    }
}

/// The frames of the spinner.
pub open spec fn spinner_frames() -> Seq<Seq<char>> {
    seq!["⠋"@, "⠙"@, "⠹"@, "⠸"@, "⠼"@, "⠴"@, "⠦"@, "⠧"@]
}

fn spinner(tick: usize) -> (frame: &'static str)
    ensures
        frame@ == spinner_frames()[(tick / 2) as int % 8],
{
    let n: usize = (tick / 2) % 8;
    if n == 0 {
        "⠋"
    } else if n == 1 {
        "⠙"
    } else if n == 2 {
        "⠹"
    } else if n == 3 {
        "⠸"
    } else if n == 4 {
        "⠼"
    } else if n == 5 {
        "⠴"
    } else if n == 6 {
        "⠦"
    } else {
        "⠧"
    }
}

/// How wide a progress bar is.
pub const BAR: usize = 24;

/// The bits of `24`, the width of a progress bar.
pub const BAR_BITS: u64 = 0x4038_0000_0000_0000;

/// `filled` is an outcome of how much of the bar is filled.
pub open spec fn bar_filled<N: Numerics>(
    num: &N,
    done: usize,
    total: usize,
    filled: usize,
) -> bool {
    exists|f: Number, p: Number|
        {
            &&& #[trigger] fraction_of(num, done, total, f)
            &&& #[trigger] product(num, f, Number { bits: BAR_BITS }, p)
            &&& rounded(num, p, filled)
        }
}

/// What a bar filled so far, and the count beside it, look like. A job of one
/// item has none.
pub open spec fn bar_spans(done: usize, total: usize, filled: usize) -> Seq<SpanView> {
    if total > 1 {
        seq![
            SpanView { text: run('█', filled as nat), look: Look::of(Color::Green) },
            SpanView {
                text: run(
                    '░',
                    if filled < BAR {
                        (BAR - filled) as nat
                    } else {
                        0
                    },
                ),
                look: Look::of(Color::DarkGray),
            },
            SpanView {
                text: " "@ + decimal(done as nat) + "/"@ + decimal(total as nat) + " "@,
                look: Look::of(Color::Gray),
            },
        ]
    } else {
        seq![]
    }
}

/// `spans` is an outcome of the line that shows how far a job is.
pub open spec fn progress_shown<N: Numerics>(
    num: &N,
    tick: usize,
    job: JobState,
    spans: Seq<SpanView>,
) -> bool {
    exists|filled: usize|
        {
            &&& #[trigger] bar_filled(num, job.done, job.total, filled)
            &&& spans == seq![
                SpanView {
                    text: " "@ + spinner_frames()[(tick / 2) as int % 8] + " "@,
                    look: Look::bold_of(Color::Cyan),
                },
                SpanView { text: job.label@ + " "@, look: Look::bold_of(Color::White) },
            ] + bar_spans(job.done, job.total, filled) + if job.current@.len() > 0 {
                seq![SpanView { text: job.current@, look: Look::of(Color::Yellow) }]
            } else {
                seq![]
            }
        }
}

/// The line that shows how far a job is.
pub fn progress_line<N: Numerics>(num: &N, tick: usize, job: &JobState) -> (spans: Vec<Span>)
    ensures
        progress_shown(num, tick, *job, span_views(spans@)),
{
    let f = job.fraction(num);
    let p = num.times(f, Number::from_bits(BAR_BITS));
    let filled: usize = num.nearest(p);
    assert(fraction_of(num, job.done, job.total, f));
    assert(product(num, f, Number { bits: BAR_BITS }, p));
    assert(bar_filled(num, job.done, job.total, filled));
    let mut spans: Vec<Span> = Vec::new();
    let mut text = " ".to_owned();
    text.append(spinner(tick));
    text.append(" ");
    spans.push(Span { text, look: bold_look(Color::Cyan) });
    let mut text = job.label.clone();
    text.append(" ");
    spans.push(Span { text, look: bold_look(Color::White) });
    let ghost head = span_views(spans@);
    if job.total > 1 {
        let mut full = String::new();
        push_run(&mut full, '█', filled);
        assert(full@ =~= run('█', filled as nat));
        spans.push(Span { text: full, look: look(Color::Green) });
        let mut rest = String::new();
        if filled < BAR {
            push_run(&mut rest, '░', BAR - filled);
        }
        assert(rest@ =~= run(
            '░',
            if filled < BAR {
                (BAR - filled) as nat
            } else {
                0
            },
        ));
        spans.push(Span { text: rest, look: look(Color::DarkGray) });
        let mut count = " ".to_owned();
        count.append(decimal_text(job.done as u64).as_str());
        count.append("/");
        count.append(decimal_text(job.total as u64).as_str());
        count.append(" ");
        spans.push(Span { text: count, look: look(Color::Gray) });
    }
    assert(span_views(spans@) =~= head + bar_spans(job.done, job.total, filled));
    let ghost most = span_views(spans@);
    if job.current.as_str().unicode_len() > 0 {
        spans.push(Span { text: job.current.clone(), look: look(Color::Yellow) });
        assert(span_views(spans@) =~= most + seq![
            SpanView { text: job.current@, look: Look::of(Color::Yellow) },
        ]);
    } else {
        assert(most =~= most + Seq::<SpanView>::empty());
    }
    assert(head =~= seq![
        SpanView {
            text: " "@ + spinner_frames()[(tick / 2) as int % 8] + " "@,
            look: Look::bold_of(Color::Cyan),
        },
        SpanView { text: job.label@ + " "@, look: Look::bold_of(Color::White) },
    ]);
    spans
}

/// What the banner says of the provider.
pub open spec fn banner_of(provider: Option<ProviderStatus>) -> SpanView {
    let alarm = Look::badge(Color::Red, Color::White);
    match provider {
        None => SpanView { text: "provider: ? "@, look: Look::of(Color::DarkGray) },
        Some(st) => match st.selected {
            None => if st.unavailable is Some {
                SpanView {
                    text: "⚠ configured provider unavailable — run: tickerctl provider set "@,
                    look: alarm,
                }
            } else {
                SpanView { text: "⚠ no provider — run: tickerctl provider set "@, look: alarm }
            },
            Some(p) => if !st.ready {
                SpanView { text: "⚠ "@ + p.label@ + " — no API key "@, look: alarm }
            } else {
                SpanView { text: "provider: "@ + p.label@ + " "@, look: Look::of(Color::Green) }
            },
        },
    }
}

/// What the banner says of the provider: whether prices can be fetched at all.
pub fn provider_banner(provider: &Option<ProviderStatus>) -> (s: Span)
    ensures
        s@ == banner_of(*provider),
{
    let alarm = badge_look(Color::Red, Color::White);
    let st = match provider {
        None => return span("provider: ? ", look(Color::DarkGray)),
        Some(st) => st,
    };
    match &st.selected {
        None => if st.unavailable.is_some() {
            span("⚠ configured provider unavailable — run: tickerctl provider set ", alarm)
        } else {
            span("⚠ no provider — run: tickerctl provider set ", alarm)
        },
        Some(p) => if !st.ready {
            let mut text = "⚠ ".to_owned();
            text.append(p.label.as_str());
            text.append(" — no API key ");
            Span { text, look: alarm }
        } else {
            let mut text = "provider: ".to_owned();
            text.append(p.label.as_str());
            text.append(" ");
            Span { text, look: look(Color::Green) }
        },
    }
}

/// How a tab is labelled: its number and its name.
pub fn tab_label(tab: Tab) -> (label: String)
    ensures
        label@ == " "@ + decimal((tab.place() + 1) as nat) + " "@ + tab.name() + " "@,
{
    let mut label = " ".to_owned();
    label.append(decimal_text(tab.position() as u64 + 1).as_str());
    label.append(" ");
    label.append(tab.title());
    label.append(" ");
    label
}

/// The title of the holdings, given when anything was last refreshed and what
/// day that was, if it is a date.
pub open spec fn title_of(
    last_refresh: Option<Seq<char>>,
    day: Option<i32>,
    today: i32,
) -> Seq<char> {
    match last_refresh {
        None => " Holdings "@,
        Some(d) => if ago(day, today).len() == 0 {
            " Holdings — last refresh "@ + d + " "@
        } else {
            " Holdings — last refresh "@ + d + " ("@ + ago(day, today) + ") "@
        },
    }
}

/// The title of the holdings, from the last refresh and its day.
pub fn title_with_day(last_refresh: &Option<String>, day: Option<i32>, today: i32) -> (title: String)
    ensures
        title@ == title_of(optional_text(*last_refresh), day, today),
{
    let d = match last_refresh {
        None => return " Holdings ".to_owned(),
        Some(d) => d,
    };
    let words = in_words(day, today);
    let mut title = " Holdings — last refresh ".to_owned();
    title.append(d.as_str());
    if words.as_str().unicode_len() == 0 {
        title.append(" ");
    } else {
        title.append(" (");
        title.append(words.as_str());
        title.append(") ");
    }
    title
}

/// The title of the holdings: when anything was last refreshed, and how long
/// ago that was.
pub fn holdings_title(last_refresh: &Option<String>, today: i32) -> (title: String)
    ensures
        title@ == title_of(
            optional_text(*last_refresh),
            match *last_refresh {
                Some(d) => day_of(d@),
                None => None,
            },
            today,
        ),
{
    let day = match last_refresh {
        Some(d) => parse_day(d.as_str(), DAY_FORMAT),
        None => None,
    };
    title_with_day(last_refresh, day, today)
}

/// Green for a gain, red for a loss and for what is no number.
pub open spec fn gain_color(n: Number) -> Color {
    if n.not_below(zero()) {
        Color::Green
    } else {
        Color::Red
    }
}

fn color_of_gain(n: Number) -> (c: Color)
    ensures
        c == gain_color(n),
{
    if n.at_least(Number::zero()) {
        Color::Green
    } else {
        Color::Red
    }
}

/// Whether a cell shows a number in a column.
pub open spec fn cell_shows<N: Numerics>(
    num: &N,
    cell: Span,
    n: Number,
    column: Column,
    before: Seq<char>,
    after: Seq<char>,
    look: Look,
) -> bool {
    written_as(num, n, column, before, after, cell.text@) && cell.look == look
}

fn number_cell<N: Numerics>(
    num: &N,
    n: Number,
    column: Column,
    before: &str,
    after: &str,
    look: Look,
) -> (cell: Span)
    ensures
        cell_shows(num, cell, n, column, before@, after@, look),
{
    Span { text: write_number(num, n, column, before, after), look }
}

/// A column for a number without its sign.
pub open spec fn unsigned_column(places: usize, width: usize) -> Column {
    Column { places, signed: false, width }
}

/// A column for a number with its sign.
pub open spec fn signed_column(places: usize, width: usize) -> Column {
    Column { places, signed: true, width }
}

/// The cells of a holding.
pub open spec fn holding_shown<N: Numerics>(num: &N, h: HoldingRow, cells: Seq<Span>) -> bool {
    let u = Look::unadorned();
    let g = Look::of(gain_color(h.gain));
    &&& cells.len() == 8
    &&& cells[0]@ == (SpanView { text: h.ticker@, look: Look::bold_of(Color::Cyan) })
    &&& cell_shows(num, cells[1], h.shares, unsigned_column(4, 10), ""@, ""@, u)
    &&& cell_shows(num, cells[2], h.avg_cost, unsigned_column(2, 9), "$"@, ""@, u)
    &&& cell_shows(num, cells[3], h.current_price, unsigned_column(2, 9), "$"@, ""@, u)
    &&& cell_shows(num, cells[4], h.value, unsigned_column(2, 11), "$"@, ""@, u)
    &&& cell_shows(num, cells[5], h.weight, unsigned_column(1, 6), ""@, "%"@, u)
    &&& cell_shows(num, cells[6], h.gain, signed_column(2, 11), "$"@, ""@, g)
    &&& cell_shows(num, cells[7], h.gain_pct, signed_column(2, 8), ""@, "%"@, g)
}

/// The cells of a holding.
pub fn holding_row<N: Numerics>(num: &N, h: &HoldingRow) -> (cells: Vec<Span>)
    ensures
        holding_shown(num, *h, cells@),
{
    let u = no_look();
    let g = look(color_of_gain(h.gain));
    let shares = Column { places: 4, signed: false, width: 10 };
    let price = Column { places: 2, signed: false, width: 9 };
    let value = Column { places: 2, signed: false, width: 11 };
    let weight = Column { places: 1, signed: false, width: 6 };
    let gain = Column { places: 2, signed: true, width: 11 };
    let gain_pct = Column { places: 2, signed: true, width: 8 };
    let mut cells: Vec<Span> = Vec::new();
    cells.push(span(h.ticker.as_str(), bold_look(Color::Cyan)));
    cells.push(number_cell(num, h.shares, shares, "", "", u));
    cells.push(number_cell(num, h.avg_cost, price, "$", "", u));
    cells.push(number_cell(num, h.current_price, price, "$", "", u));
    cells.push(number_cell(num, h.value, value, "$", "", u));
    cells.push(number_cell(num, h.weight, weight, "", "%", u));
    cells.push(number_cell(num, h.gain, gain, "$", "", g));
    cells.push(number_cell(num, h.gain_pct, gain_pct, "", "%", g));
    cells
}

/// A titled value.
#[derive(Debug, Clone)]
pub struct Card {
    pub title: String,
    pub value: String,
    pub color: Color,
}

/// Whether a card shows a number.
pub open spec fn card_shows<N: Numerics>(
    num: &N,
    card: Card,
    title: Seq<char>,
    n: Number,
    column: Column,
    before: Seq<char>,
    after: Seq<char>,
    color: Color,
) -> bool {
    card.title@ == title && written_as(num, n, column, before, after, card.value@) && card.color
        == color
}

/// Whether a card shows a text.
pub open spec fn card_says(card: Card, title: Seq<char>, value: Seq<char>, color: Color) -> bool {
    card.title@ == title && card.value@ == value && card.color == color
}

/// The cards of a summary.
pub open spec fn summary_shown<N: Numerics>(
    num: &N,
    s: PortfolioSummary,
    cards: Seq<Card>,
) -> bool {
    let c = gain_color(s.total_gain);
    &&& cards.len() == 4
    &&& card_shows(num, cards[0], "Value"@, s.total_value, plain(2), "$"@, ""@, Color::White)
    &&& card_shows(num, cards[1], "Cost"@, s.total_cost, plain(2), "$"@, ""@, Color::White)
    &&& card_shows(num, cards[2], "Gain"@, s.total_gain, with_sign(2), "$"@, ""@, c)
    &&& card_shows(num, cards[3], "Return"@, s.total_gain_pct, with_sign(2), ""@, "%"@, c)
}

/// The cards of a summary.
pub fn summary_cards<N: Numerics>(num: &N, s: &PortfolioSummary) -> (cards: Vec<Card>)
    ensures
        summary_shown(num, *s, cards@),
{
    let color = color_of_gain(s.total_gain);
    let mut cards: Vec<Card> = Vec::new();
    cards.push(
        Card {
            title: "Value".to_owned(),
            value: write_plain(num, s.total_value, 2, "$", ""),
            color: Color::White,
        },
    );
    cards.push(
        Card {
            title: "Cost".to_owned(),
            value: write_plain(num, s.total_cost, 2, "$", ""),
            color: Color::White,
        },
    );
    cards.push(
        Card {
            title: "Gain".to_owned(),
            value: write_signed(num, s.total_gain, 2, "$", ""),
            color,
        },
    );
    cards.push(
        Card {
            title: "Return".to_owned(),
            value: write_signed(num, s.total_gain_pct, 2, "", "%"),
            color,
        },
    );
    cards
}

/// The cards of a ticker; of one that is not held, two are blank.
pub open spec fn detail_shown<N: Numerics>(num: &N, h: TickerHistory, cards: Seq<Card>) -> bool {
    &&& cards.len() == 4
    &&& card_shows(num, cards[0], "Price"@, h.current_price, plain(2), "$"@, ""@, Color::Cyan)
    &&& card_says(cards[1], "Updated"@, h.last_updated@, Color::Gray)
    &&& match h.holding {
        Some(p) => {
            &&& card_shows(num, cards[2], "Shares"@, p.shares, plain(4), ""@, ""@, Color::White)
            &&& card_shows(
                num,
                cards[3],
                "Return"@,
                p.gain_pct,
                with_sign(2),
                ""@,
                "%"@,
                gain_color(p.gain_pct),
            )
        },
        None => {
            &&& card_says(cards[2], "Shares"@, "—"@, Color::DarkGray)
            &&& card_says(cards[3], "Return"@, "—"@, Color::DarkGray)
        },
    }
}

/// The cards of a ticker.
pub fn detail_cards<N: Numerics>(num: &N, h: &TickerHistory) -> (cards: Vec<Card>)
    ensures
        detail_shown(num, *h, cards@),
{
    let mut cards: Vec<Card> = Vec::new();
    cards.push(
        Card {
            title: "Price".to_owned(),
            value: write_plain(num, h.current_price, 2, "$", ""),
            color: Color::Cyan,
        },
    );
    cards.push(
        Card {
            title: "Updated".to_owned(),
            value: h.last_updated.clone(),
            color: Color::Gray,
        },
    );
    match &h.holding {
        Some(p) => {
            cards.push(
                Card {
                    title: "Shares".to_owned(),
                    value: write_plain(num, p.shares, 4, "", ""),
                    color: Color::White,
                },
            );
            cards.push(
                Card {
                    title: "Return".to_owned(),
                    value: write_signed(num, p.gain_pct, 2, "", "%"),
                    color: color_of_gain(p.gain_pct),
                },
            );
        },
        None => {
            cards.push(
                Card {
                    title: "Shares".to_owned(),
                    value: "—".to_owned(),
                    color: Color::DarkGray,
                },
            );
            cards.push(
                Card {
                    title: "Return".to_owned(),
                    value: "—".to_owned(),
                    color: Color::DarkGray,
                },
            );
        },
    }
    cards
}

/// The cells of a line of the ledger.
pub open spec fn transaction_shown<N: Numerics>(
    num: &N,
    t: TransactionRow,
    cells: Seq<Span>,
) -> bool {
    let side = Look::of(gain_color(t.shares));
    &&& cells.len() == 5
    &&& cells[0]@ == (SpanView { text: t.txn_date@, look: Look::unadorned() })
    &&& cells[1]@ == (SpanView { text: t.ticker@, look: Look::bold_of(Color::Cyan) })
    &&& cell_shows(num, cells[2], t.shares, with_sign(4), ""@, ""@, side)
    &&& cell_shows(num, cells[3], t.price, plain(2), "$"@, ""@, Look::unadorned())
    &&& exists|total: Number| #[trigger]
        product(num, t.shares, t.price, total) && cell_shows(
            num,
            cells[4],
            total,
            with_sign(2),
            "$"@,
            ""@,
            side,
        )
}

/// The cells of a line of the ledger.
pub fn txn_row<N: Numerics>(num: &N, t: &TransactionRow) -> (cells: Vec<Span>)
    ensures
        transaction_shown(num, *t, cells@),
{
    let side = look(color_of_gain(t.shares));
    let shares = Column { places: 4, signed: true, width: 0 };
    let price = Column { places: 2, signed: false, width: 0 };
    let total = Column { places: 2, signed: true, width: 0 };
    let mut cells: Vec<Span> = Vec::new();
    cells.push(span(t.txn_date.as_str(), no_look()));
    cells.push(span(t.ticker.as_str(), bold_look(Color::Cyan)));
    cells.push(number_cell(num, t.shares, shares, "", "", side));
    cells.push(number_cell(num, t.price, price, "$", "", no_look()));
    let amount = num.times(t.shares, t.price);
    assert(product(num, t.shares, t.price, amount));
    cells.push(number_cell(num, amount, total, "$", "", side));
    cells
}

/// What keys there are on a tab.
pub open spec fn hints_of(tab: Tab) -> Seq<char> {
    match tab {
        Tab::Portfolio => "[↑↓/jk] move  [Enter] detail  [b]uy  [s]ell  [r]efresh  [R] force  [Tab/h/l] tabs  [q]uit"@,
        Tab::Detail => "[↑↓/jk] cycle holdings  [r]efresh  [R] force  [b]uy  [s]ell  [Tab/h/l] tabs  [q]uit"@,
        Tab::Trade => "NAV: [i/Enter] edit  [j/k] field  [h/l/Tab] tabs  [Esc] back   |   EDIT: [Esc] leave  [Tab] field  [Enter] submit"@,
        Tab::Transactions => "[↑↓/jk] move  [r]efresh  [R] force  [Tab/h/l] tabs  [q]uit"@,
    }
}

/// What keys there are on a tab.
pub fn hints(tab: Tab) -> (text: &'static str)
    ensures
        text@ == hints_of(tab),
{
    match tab {
        Tab::Portfolio => "[↑↓/jk] move  [Enter] detail  [b]uy  [s]ell  [r]efresh  [R] force  [Tab/h/l] tabs  [q]uit",
        Tab::Detail => "[↑↓/jk] cycle holdings  [r]efresh  [R] force  [b]uy  [s]ell  [Tab/h/l] tabs  [q]uit",
        Tab::Trade => "NAV: [i/Enter] edit  [j/k] field  [h/l/Tab] tabs  [Esc] back   |   EDIT: [Esc] leave  [Tab] field  [Enter] submit",
        Tab::Transactions => "[↑↓/jk] move  [r]efresh  [R] force  [Tab/h/l] tabs  [q]uit",
    }
}

/// How a status line looks.
pub open spec fn status_look_of(kind: StatusKind) -> Look {
    match kind {
        StatusKind::Info => Look::of(Color::Gray),
        StatusKind::Success => Look::bold_of(Color::Green),
        StatusKind::Warn => Look::bold_of(Color::Yellow),
        StatusKind::Error => Look::bold_of(Color::Red),
    }
}

/// How a status line looks.
pub fn status_look(kind: StatusKind) -> (l: Look)
    ensures
        l == status_look_of(kind),
{
    match kind {
        StatusKind::Info => look(Color::Gray),
        StatusKind::Success => bold_look(Color::Green),
        StatusKind::Warn => bold_look(Color::Yellow),
        StatusKind::Error => bold_look(Color::Red),
    }
}

/// A point of a line: the day's place among the days, and a value.
#[derive(Debug, Clone, Copy, PartialEq, Eq, Structural)]
pub struct Plot {
    pub at: usize,
    pub value: Number,
}

/// The lines over the closes.
#[derive(Debug, Clone, Copy, PartialEq, Eq, Structural)]
pub enum Band {
    Sma,
    Upper,
    Lower,
}

/// The value of a band on a day.
pub open spec fn band_value(b: BandPoint, band: Band) -> Option<Number> {
    match band {
        Band::Sma => b.sma,
        Band::Upper => b.upper,
        Band::Lower => b.lower,
    }
}

/// The line of the closes.
pub open spec fn close_line(points: Seq<HistoryPoint>) -> Seq<Plot> {
    Seq::new(points.len(), |i: int| Plot { at: i as usize, value: points[i].close })
}

/// The line of a band: the days that have a value.
pub open spec fn band_line(bands: Seq<BandPoint>, band: Band) -> Seq<Plot>
    decreases bands.len(),
{
    if bands.len() == 0 {
        seq![]
    } else {
        let earlier = band_line(bands.drop_last(), band);
        match band_value(bands.last(), band) {
            Some(value) => earlier.push(Plot { at: (bands.len() - 1) as usize, value }),
            None => earlier,
        }
    }
}

fn plot_closes(points: &Vec<HistoryPoint>) -> (line: Vec<Plot>)
    ensures
        line@ == close_line(points@),
{
    let mut line: Vec<Plot> = Vec::new();
    let mut i: usize = 0;
    while i < points.len()
        invariant
            i <= points@.len(),
            line@ == close_line(points@).take(i as int),
        decreases points@.len() - i,
    {
        line.push(Plot { at: i, value: points[i].close });
        i = i + 1;
        assert(line@ =~= close_line(points@).take(i as int));
    }
    assert(line@ =~= close_line(points@));
    line
}

fn plot_band(bands: &Vec<BandPoint>, band: Band) -> (line: Vec<Plot>)
    ensures
        line@ == band_line(bands@, band),
{
    let mut line: Vec<Plot> = Vec::new();
    let mut i: usize = 0;
    while i < bands.len()
        invariant
            i <= bands@.len(),
            line@ == band_line(bands@.take(i as int), band),
        decreases bands@.len() - i,
    {
        assert(bands@.take(i + 1).drop_last() =~= bands@.take(i as int));
        let value = match band {
            Band::Sma => bands[i].sma,
            Band::Upper => bands[i].upper,
            Band::Lower => bands[i].lower,
        };
        match value {
            Some(value) => {
                line.push(Plot { at: i, value });
            },
            None => {},
        }
        i = i + 1;
    }
    assert(bands@.take(i as int) =~= bands@);
    line
}

/// The least value of a line, or `start` where none is less.
pub open spec fn least(line: Seq<Plot>, start: Number) -> Number
    decreases line.len(),
{
    if line.len() == 0 {
        start
    } else {
        let m = least(line.drop_last(), start);
        if m.above(line.last().value) {
            line.last().value
        } else {
            m
        }
    }
}

/// The greatest value of a line, or `start` where none is greater.
pub open spec fn greatest(line: Seq<Plot>, start: Number) -> Number
    decreases line.len(),
{
    if line.len() == 0 {
        start
    } else {
        let m = greatest(line.drop_last(), start);
        if line.last().value.above(m) {
            line.last().value
        } else {
            m
        }
    }
}

/// Positive infinity.
pub open spec fn infinity() -> Number {
    Number { bits: INFINITY_BITS }
}

/// The bits of negative infinity.
pub const NEGATIVE_INFINITY_BITS: u64 = 0xfff0_0000_0000_0000;

/// Negative infinity.
pub open spec fn negative_infinity() -> Number {
    Number { bits: NEGATIVE_INFINITY_BITS }
}

fn find_least(line: &Vec<Plot>, start: Number) -> (m: Number)
    ensures
        m == least(line@, start),
{
    let mut m = start;
    let mut i: usize = 0;
    while i < line.len()
        invariant
            i <= line@.len(),
            m == least(line@.take(i as int), start),
        decreases line@.len() - i,
    {
        assert(line@.take(i + 1).drop_last() =~= line@.take(i as int));
        if m.exceeds(line[i].value) {
            m = line[i].value;
        }
        i = i + 1;
    }
    assert(line@.take(i as int) =~= line@);
    m
}

fn find_greatest(line: &Vec<Plot>, start: Number) -> (m: Number)
    ensures
        m == greatest(line@, start),
{
    let mut m = start;
    let mut i: usize = 0;
    while i < line.len()
        invariant
            i <= line@.len(),
            m == greatest(line@.take(i as int), start),
        decreases line@.len() - i,
    {
        assert(line@.take(i + 1).drop_last() =~= line@.take(i as int));
        if line[i].value.exceeds(m) {
            m = line[i].value;
        }
        i = i + 1;
    }
    assert(line@.take(i as int) =~= line@);
    m
}

/// The least value is no greater than any value of the line, nor than `start`.
pub proof fn least_is_least(line: Seq<Plot>, start: Number, i: int)
    requires
        !start.nan(),
        0 <= i < line.len(),
        !line[i].value.nan(),
    ensures
        start.not_below(least(line, start)),
        line[i].value.not_below(least(line, start)),
    decreases line.len(),
{
    lemma_least_from_start(line.drop_last(), start);
    if i < line.len() - 1 {
        assert(line.drop_last()[i] == line[i]);
        least_is_least(line.drop_last(), start, i);
    }
}

proof fn lemma_least_from_start(line: Seq<Plot>, start: Number)
    requires
        !start.nan(),
    ensures
        start.not_below(least(line, start)),
    decreases line.len(),
{
    if line.len() > 0 {
        lemma_least_from_start(line.drop_last(), start);
    }
}

/// The greatest value is no less than any value of the line, nor than `start`.
pub proof fn greatest_is_greatest(line: Seq<Plot>, start: Number, i: int)
    requires
        !start.nan(),
        0 <= i < line.len(),
        !line[i].value.nan(),
    ensures
        greatest(line, start).not_below(start),
        greatest(line, start).not_below(line[i].value),
    decreases line.len(),
{
    lemma_greatest_from_start(line.drop_last(), start);
    if i < line.len() - 1 {
        assert(line.drop_last()[i] == line[i]);
        greatest_is_greatest(line.drop_last(), start, i);
    }
}

proof fn lemma_greatest_from_start(line: Seq<Plot>, start: Number)
    requires
        !start.nan(),
    ensures
        greatest(line, start).not_below(start),
    decreases line.len(),
{
    if line.len() > 0 {
        lemma_greatest_from_start(line.drop_last(), start);
    }
}

/// The bits of `0.05`, the share of the range that is left free on either side.
pub const MARGIN_BITS: u64 = 0x3fa9_9999_9999_999a;

/// The bits of `0.01`, the least that is left free.
pub const LEAST_MARGIN_BITS: u64 = 0x3f84_7ae1_47ae_147b;

/// The extremes of the four lines; zero and one where there are none, or they
/// are not finite.
pub open spec fn extremes(
    close: Seq<Plot>,
    sma: Seq<Plot>,
    upper: Seq<Plot>,
    lower: Seq<Plot>,
) -> (Number, Number) {
    let lo = least(lower, least(upper, least(sma, least(close, infinity()))));
    let hi = greatest(
        lower,
        greatest(upper, greatest(sma, greatest(close, negative_infinity()))),
    );
    if !lo.finite() || !hi.finite() {
        (zero(), Number { bits: ONE_BITS })
    } else {
        (lo, hi)
    }
}

/// `low` and `high` are an outcome of leaving some room around the extremes.
pub open spec fn with_margin<N: Numerics>(
    num: &N,
    lo: Number,
    hi: Number,
    low: Number,
    high: Number,
) -> bool {
    exists|range: Number, share: Number|
        {
            let least_margin = Number { bits: LEAST_MARGIN_BITS };
            let margin = if share.above(least_margin) {
                share
            } else {
                least_margin
            };
            &&& #[trigger] difference(num, hi, lo, range)
            &&& #[trigger] product(num, range, Number { bits: MARGIN_BITS }, share)
            &&& difference(num, lo, margin, low)
            &&& sum(num, hi, margin, high)
        }
}

/// What a chart shows.
#[derive(Debug, Clone)]
pub struct ChartModel {
    pub title: String,
    pub close: Vec<Plot>,
    pub sma: Vec<Plot>,
    pub upper: Vec<Plot>,
    pub lower: Vec<Plot>,
    /// The place of the last day, at least 1.
    pub last: usize,
    pub low: Number,
    pub high: Number,
    /// The first, middle and last date.
    pub x_labels: Vec<String>,
    /// The low, middle and high price.
    pub y_labels: Vec<String>,
}

/// `chart` is an outcome of charting a ticker that has points.
pub open spec fn chart_shown<N: Numerics>(num: &N, h: TickerHistory, chart: ChartModel) -> bool {
    let n = h.points@.len();
    let (lo, hi) = extremes(chart.close@, chart.sma@, chart.upper@, chart.lower@);
    &&& chart.title@ == " "@ + h.ticker@ + " — Close · SMA(20) · Bollinger ±2σ "@
    &&& chart.close@ == close_line(h.points@)
    &&& chart.sma@ == band_line(h.bands@, Band::Sma)
    &&& chart.upper@ == band_line(h.bands@, Band::Upper)
    &&& chart.lower@ == band_line(h.bands@, Band::Lower)
    &&& chart.last == if n > 2 {
        n - 1
    } else {
        1
    }
    &&& with_margin(num, lo, hi, chart.low, chart.high)
    &&& views(chart.x_labels@) == seq![
        h.points@[0].date@,
        h.points@[(n / 2) as int].date@,
        h.points@[n - 1].date@,
    ]
    &&& chart.y_labels@.len() == 3
    &&& written_as(num, chart.low, plain(2), "$"@, ""@, chart.y_labels@[0]@)
    &&& exists|s: Number, middle: Number|
        {
            &&& #[trigger] sum(num, chart.low, chart.high, s)
            &&& #[trigger] quotient(num, s, Number { bits: TWO_BITS }, middle)
            &&& written_as(num, middle, plain(2), "$"@, ""@, chart.y_labels@[1]@)
        }
    &&& written_as(num, chart.high, plain(2), "$"@, ""@, chart.y_labels@[2]@)
}

/// The chart of a ticker; none where it has no points.
#[verifier::spinoff_prover]
pub fn chart<N: Numerics>(num: &N, h: &TickerHistory) -> (model: Option<ChartModel>)
    ensures
        match model {
            None => h.points@.len() == 0,
            Some(chart) => h.points@.len() > 0 && chart_shown(num, *h, chart),
        },
{
    let n: usize = h.points.len();
    if n == 0 {
        return None;
    }
    let close = plot_closes(&h.points);
    let sma = plot_band(&h.bands, Band::Sma);
    let upper = plot_band(&h.bands, Band::Upper);
    let lower = plot_band(&h.bands, Band::Lower);
    let mut lo = find_least(&close, Number::from_bits(INFINITY_BITS));
    lo = find_least(&sma, lo);
    lo = find_least(&upper, lo);
    lo = find_least(&lower, lo);
    let mut hi = find_greatest(&close, Number::from_bits(NEGATIVE_INFINITY_BITS));
    hi = find_greatest(&sma, hi);
    hi = find_greatest(&upper, hi);
    hi = find_greatest(&lower, hi);
    if !lo.is_finite() || !hi.is_finite() {
        lo = Number::zero();
        hi = Number::from_bits(ONE_BITS);
    }
    assert((lo, hi) == extremes(close@, sma@, upper@, lower@));
    let range = num.minus(hi, lo);
    let share = num.times(range, Number::from_bits(MARGIN_BITS));
    assert(difference(num, hi, lo, range));
    assert(product(num, range, Number { bits: MARGIN_BITS }, share));
    let least_margin = Number::from_bits(LEAST_MARGIN_BITS);
    let margin = if share.exceeds(least_margin) {
        share
    } else {
        least_margin
    };
    let low = num.minus(lo, margin);
    let high = num.plus(hi, margin);
    assert(with_margin(num, lo, hi, low, high));
    let s = num.plus(low, high);
    let middle = num.over(s, Number::from_bits(TWO_BITS));
    assert(sum(num, low, high, s));
    assert(quotient(num, s, Number { bits: TWO_BITS }, middle));
    let mut title = " ".to_owned();
    title.append(h.ticker.as_str());
    title.append(" — Close · SMA(20) · Bollinger ±2σ ");
    let mut x_labels: Vec<String> = Vec::new();
    x_labels.push(h.points[0].date.clone());
    x_labels.push(h.points[n / 2].date.clone());
    x_labels.push(h.points[n - 1].date.clone());
    assert(views(x_labels@) =~= seq![
        h.points@[0].date@,
        h.points@[(n / 2) as int].date@,
        h.points@[n - 1].date@,
    ]);
    let mut y_labels: Vec<String> = Vec::new();
    y_labels.push(write_plain(num, low, 2, "$", ""));
    y_labels.push(write_plain(num, middle, 2, "$", ""));
    y_labels.push(write_plain(num, high, 2, "$", ""));
    assert(written_as(num, low, plain(2), "$"@, ""@, y_labels@[0]@));
    assert(written_as(num, middle, plain(2), "$"@, ""@, y_labels@[1]@));
    assert(written_as(num, high, plain(2), "$"@, ""@, y_labels@[2]@));
    let last: usize = if n > 2 {
        n - 1
    } else {
        1
    };
    let model = ChartModel {
        title,
        close,
        sma,
        upper,
        lower,
        last,
        low,
        high,
        x_labels,
        y_labels,
    };
    assert(chart_shown(num, *h, model));
    Some(model)
}

/// A field of the trade form on the screen.
#[derive(Debug, Clone)]
pub struct FieldModel {
    pub label: String,
    pub text: String,
    pub border: Look,
}

/// A [`FieldModel`] with its texts as sequences.
#[verifier::ext_equal]
pub struct FieldModelView {
    pub label: Seq<char>,
    pub text: Seq<char>,
    pub border: Look,
}

impl View for FieldModel {
    type V = FieldModelView;

    open spec fn view(&self) -> FieldModelView {
        FieldModelView { label: self.label@, text: self.text@, border: self.border }
    }
}

/// The views of the fields.
pub open spec fn field_views(fields: Seq<FieldModel>) -> Seq<FieldModelView> {
    fields.map_values(|f: FieldModel| f@)
}

/// The trade form on the screen.
#[derive(Debug, Clone)]
pub struct TradeModel {
    pub title: Vec<Span>,
    pub banner: Vec<Span>,
    pub fields: Vec<FieldModel>,
    /// What stands in place of a field.
    pub note: Option<String>,
}

/// A field with its cursor and border. The one that is edited has the cursor.
pub open spec fn field_of(
    label: Seq<char>,
    value: Seq<char>,
    focused: bool,
    editing: bool,
) -> FieldModelView {
    FieldModelView {
        label,
        text: if focused && editing {
            value + "█"@
        } else {
            value
        },
        border: if focused && editing {
            Look::bold_of(Color::Magenta)
        } else if focused {
            Look::bold_of(Color::Cyan)
        } else {
            Look::of(Color::DarkGray)
        },
    }
}

fn field(label: &str, value: &str, focused: bool, editing: bool) -> (f: FieldModel)
    ensures
        f@ == field_of(label@, value@, focused, editing),
{
    let mut text = value.to_owned();
    if focused && editing {
        text.append("█");
    }
    let border = if focused && editing {
        bold_look(Color::Magenta)
    } else if focused {
        bold_look(Color::Cyan)
    } else {
        look(Color::DarkGray)
    };
    FieldModel { label: label.to_owned(), text, border }
}

/// The title of the trade form.
pub open spec fn trade_title(form: TradeFormView) -> Seq<SpanView> {
    let u = Look::unadorned();
    seq![
        SpanView { text: " Trade · "@, look: u },
        match form.side {
            TradeSide::Buy => SpanView { text: "BUY"@, look: Look::bold_of(Color::Green) },
            TradeSide::Sell => SpanView { text: "SELL"@, look: Look::bold_of(Color::Red) },
        },
        SpanView { text: " · "@, look: u },
        match form.mode {
            TradeMode::Nav => SpanView {
                text: " NAV "@,
                look: Look::badge(Color::Blue, Color::White),
            },
            TradeMode::Edit => SpanView {
                text: " EDIT "@,
                look: Look::badge(Color::Magenta, Color::White),
            },
        },
        SpanView { text: " "@, look: u },
    ]
}

/// What keys there are on the trade form.
pub open spec fn trade_banner(mode: TradeMode) -> Seq<SpanView> {
    let u = Look::unadorned();
    match mode {
        TradeMode::Nav => seq![
            SpanView { text: " i / Enter "@, look: Look::badge(Color::Green, Color::Black) },
            SpanView { text: " edit field  "@, look: u },
            SpanView { text: " j / k "@, look: Look::badge(Color::Cyan, Color::Black) },
            SpanView { text: " move between fields  "@, look: u },
            SpanView { text: " h / l / Tab "@, look: Look::badge(Color::Blue, Color::White) },
            SpanView { text: " switch tabs  "@, look: u },
            SpanView { text: " Esc "@, look: Look::badge(Color::Yellow, Color::Black) },
            SpanView { text: " back to Portfolio "@, look: u },
        ],
        TradeMode::Edit => seq![
            SpanView { text: " Esc "@, look: Look::badge(Color::Yellow, Color::Black) },
            SpanView { text: " leave EDIT (back to NAV)  "@, look: u },
            SpanView { text: " Tab "@, look: Look::badge(Color::Cyan, Color::Black) },
            SpanView { text: " next field  "@, look: u },
            SpanView { text: " Enter "@, look: Look::badge(Color::Green, Color::Black) },
            SpanView { text: " submit  "@, look: u },
            SpanView { text: " Ctrl-←/→ "@, look: Look::badge(Color::Magenta, Color::Black) },
            SpanView { text: " flip BUY/SELL "@, look: u },
        ],
    }
}

/// The fields of the trade form. A sell has no price.
pub open spec fn trade_fields(form: TradeFormView) -> Seq<FieldModelView> {
    let editing = form.mode == TradeMode::Edit;
    let two = seq![
        field_of("Ticker"@, form.ticker, form.field == TradeField::Ticker, editing),
        field_of("Shares"@, form.shares, form.field == TradeField::Shares, editing),
    ];
    if form.side == TradeSide::Buy {
        two.push(
            field_of(
                "Price"@,
                if form.price.len() == 0 {
                    "(blank = last cached close)"@
                } else {
                    form.price
                },
                form.field == TradeField::Price,
                editing,
            ),
        )
    } else {
        two
    }
}

fn title_spans(form: &TradeForm) -> (spans: Vec<Span>)
    ensures
        span_views(spans@) == trade_title(form@),
{
    let mut spans: Vec<Span> = Vec::new();
    spans.push(span(" Trade · ", no_look()));
    spans.push(
        match form.side {
            TradeSide::Buy => span("BUY", bold_look(Color::Green)),
            TradeSide::Sell => span("SELL", bold_look(Color::Red)),
        },
    );
    spans.push(span(" · ", no_look()));
    spans.push(
        match form.mode {
            TradeMode::Nav => span(" NAV ", badge_look(Color::Blue, Color::White)),
            TradeMode::Edit => span(" EDIT ", badge_look(Color::Magenta, Color::White)),
        },
    );
    spans.push(span(" ", no_look()));
    assert(span_views(spans@) =~= trade_title(form@));
    spans
}

fn banner_spans(mode: TradeMode) -> (spans: Vec<Span>)
    ensures
        span_views(spans@) == trade_banner(mode),
{
    let mut spans: Vec<Span> = Vec::new();
    match mode {
        TradeMode::Nav => {
            spans.push(span(" i / Enter ", badge_look(Color::Green, Color::Black)));
            spans.push(span(" edit field  ", no_look()));
            spans.push(span(" j / k ", badge_look(Color::Cyan, Color::Black)));
            spans.push(span(" move between fields  ", no_look()));
            spans.push(span(" h / l / Tab ", badge_look(Color::Blue, Color::White)));
            spans.push(span(" switch tabs  ", no_look()));
            spans.push(span(" Esc ", badge_look(Color::Yellow, Color::Black)));
            spans.push(span(" back to Portfolio ", no_look()));
        },
        TradeMode::Edit => {
            spans.push(span(" Esc ", badge_look(Color::Yellow, Color::Black)));
            spans.push(span(" leave EDIT (back to NAV)  ", no_look()));
            spans.push(span(" Tab ", badge_look(Color::Cyan, Color::Black)));
            spans.push(span(" next field  ", no_look()));
            spans.push(span(" Enter ", badge_look(Color::Green, Color::Black)));
            spans.push(span(" submit  ", no_look()));
            spans.push(span(" Ctrl-←/→ ", badge_look(Color::Magenta, Color::Black)));
            spans.push(span(" flip BUY/SELL ", no_look()));
        },
    }
    assert(span_views(spans@) =~= trade_banner(mode));
    spans
}

/// The trade form on the screen.
pub fn trade_model(form: &TradeForm) -> (model: TradeModel)
    ensures
        span_views(model.title@) == trade_title(form@),
        span_views(model.banner@) == trade_banner(form.mode),
        field_views(model.fields@) == trade_fields(form@),
        optional_text(model.note) == if form.side == TradeSide::Buy {
            None
        } else {
            Some("Sells execute at the last cached close."@)
        },
{
    let editing = form.mode == TradeMode::Edit;
    let mut fields: Vec<FieldModel> = Vec::new();
    fields.push(
        field("Ticker", form.ticker.as_str(), form.field == TradeField::Ticker, editing),
    );
    fields.push(
        field("Shares", form.shares.as_str(), form.field == TradeField::Shares, editing),
    );
    let mut note: Option<String> = None;
    if form.side == TradeSide::Buy {
        let value = if form.price.as_str().unicode_len() == 0 {
            "(blank = last cached close)"
        } else {
            form.price.as_str()
        };
        fields.push(field("Price", value, form.field == TradeField::Price, editing));
    } else {
        note = Some("Sells execute at the last cached close.".to_owned());
    }
    assert(field_views(fields@) =~= trade_fields(form@));
    TradeModel { title: title_spans(form), banner: banner_spans(form.mode), fields, note }
}

/// A row on the screen shows every figure of its holding, and its gains are
/// green exactly where the gain is not below zero.
pub proof fn rows_show_their_figures<N: Numerics>(num: &N, h: HoldingRow, cells: Seq<Span>)
    requires
        holding_shown(num, h, cells),
    ensures
        cells.len() == 8,
        cells[0].text@ == h.ticker@,
        shows(num, cells[1].text@, h.shares, 4),
        shows(num, cells[2].text@, h.avg_cost, 2),
        shows(num, cells[3].text@, h.current_price, 2),
        shows(num, cells[4].text@, h.value, 2),
        shows(num, cells[5].text@, h.weight, 1),
        shows_signed(num, cells[6].text@, h.gain, 2),
        shows_signed(num, cells[7].text@, h.gain_pct, 2),
        cells[6].look.fg == Some(Color::Green) <==> h.gain.not_below((Number { bits: 0 })),
        cells[7].look.fg == cells[6].look.fg,
{
    columns_show_their_numbers(num, h.shares, unsigned_column(4, 10), ""@, ""@, cells[1].text@);
    columns_show_their_numbers(num, h.avg_cost, unsigned_column(2, 9), "$"@, ""@, cells[2].text@);
    columns_show_their_numbers(
        num,
        h.current_price,
        unsigned_column(2, 9),
        "$"@,
        ""@,
        cells[3].text@,
    );
    columns_show_their_numbers(num, h.value, unsigned_column(2, 11), "$"@, ""@, cells[4].text@);
    columns_show_their_numbers(num, h.weight, unsigned_column(1, 6), ""@, "%"@, cells[5].text@);
    columns_show_their_numbers(num, h.gain, signed_column(2, 11), "$"@, ""@, cells[6].text@);
    columns_show_their_numbers(num, h.gain_pct, signed_column(2, 8), ""@, "%"@, cells[7].text@);
}

/// The cards show the totals of a summary, in this order: value, cost, gain and
/// return.
pub proof fn cards_show_the_totals<N: Numerics>(num: &N, s: PortfolioSummary, cards: Seq<Card>)
    requires
        summary_shown(num, s, cards),
    ensures
        cards.len() == 4,
        shows(num, cards[0].value@, s.total_value, 2),
        shows(num, cards[1].value@, s.total_cost, 2),
        shows_signed(num, cards[2].value@, s.total_gain, 2),
        shows_signed(num, cards[3].value@, s.total_gain_pct, 2),
        cards[2].color == Color::Green <==> s.total_gain.not_below((Number { bits: 0 })),
        cards[3].color == cards[2].color,
{
    columns_show_their_numbers(num, s.total_value, plain(2), "$"@, ""@, cards[0].value@);
    columns_show_their_numbers(num, s.total_cost, plain(2), "$"@, ""@, cards[1].value@);
    columns_show_their_numbers(num, s.total_gain, with_sign(2), "$"@, ""@, cards[2].value@);
    columns_show_their_numbers(num, s.total_gain_pct, with_sign(2), ""@, "%"@, cards[3].value@);
}

/// The cards of a ticker show its price and its day, and what is held of it.
pub proof fn cards_show_the_ticker<N: Numerics>(num: &N, h: TickerHistory, cards: Seq<Card>)
    requires
        detail_shown(num, h, cards),
    ensures
        cards.len() == 4,
        shows(num, cards[0].value@, h.current_price, 2),
        cards[1].value@ == h.last_updated@,
        h.holding matches Some(p) ==> shows(num, cards[2].value@, p.shares, 4) && shows_signed(
            num,
            cards[3].value@,
            p.gain_pct,
            2,
        ) && (cards[3].color == Color::Green <==> p.gain_pct.not_below((Number { bits: 0 }))),
{
    columns_show_their_numbers(num, h.current_price, plain(2), "$"@, ""@, cards[0].value@);
    if let Some(p) = h.holding {
        columns_show_their_numbers(num, p.shares, plain(4), ""@, ""@, cards[2].value@);
        columns_show_their_numbers(num, p.gain_pct, with_sign(2), ""@, "%"@, cards[3].value@);
    }
}

/// A line of the ledger on the screen shows its day, its ticker, its shares and
/// its price, and what the shares come to at that price.
pub proof fn ledger_lines_show_their_totals<N: Numerics>(
    num: &N,
    t: TransactionRow,
    cells: Seq<Span>,
)
    requires
        transaction_shown(num, t, cells),
    ensures
        cells.len() == 5,
        cells[0].text@ == t.txn_date@,
        cells[1].text@ == t.ticker@,
        shows_signed(num, cells[2].text@, t.shares, 4),
        shows(num, cells[3].text@, t.price, 2),
        exists|total: Number| #[trigger]
            call_ensures(N::times, (num, t.shares, t.price), total) && shows_signed(
                num,
                cells[4].text@,
                total,
                2,
            ),
        cells[2].look.fg == Some(Color::Green) <==> t.shares.not_below((Number { bits: 0 })),
{
    columns_show_their_numbers(num, t.shares, with_sign(4), ""@, ""@, cells[2].text@);
    columns_show_their_numbers(num, t.price, plain(2), "$"@, ""@, cells[3].text@);
    let side = Look::of(gain_color(t.shares));
    let total = choose|total: Number| #[trigger]
        product(num, t.shares, t.price, total) && cell_shows(
            num,
            cells[4],
            total,
            with_sign(2),
            "$"@,
            ""@,
            side,
        );
    columns_show_their_numbers(num, total, with_sign(2), "$"@, ""@, cells[4].text@);
    assert(call_ensures(N::times, (num, t.shares, t.price), total));
}

/// A band's line has a plot for each day that has a value, at the place of that
/// day, and no other.
proof fn lemma_band_line(bands: Seq<BandPoint>, band: Band)
    requires
        bands.len() <= usize::MAX,
    ensures
        forall|i: int|
            0 <= i < bands.len() && band_value(#[trigger] bands[i], band) is Some ==> band_line(
                bands,
                band,
            ).contains((Plot { at: i as usize, value: band_value(bands[i], band)->0 })),
        forall|k: int|
            0 <= k < band_line(bands, band).len() ==> (#[trigger] band_line(bands, band)[k]).at
                < bands.len() && band_value(bands[band_line(bands, band)[k].at as int], band)
                == Some(band_line(bands, band)[k].value),
    decreases bands.len(),
{
    if bands.len() > 0 {
        let shorter = bands.drop_last();
        let earlier = band_line(shorter, band);
        let all = band_line(bands, band);
        lemma_band_line(shorter, band);
        assert forall|i: int|
            0 <= i < bands.len() && band_value(#[trigger] bands[i], band) is Some implies
            all.contains(Plot { at: i as usize, value: band_value(bands[i], band)->0 }) by {
            let plot = Plot { at: i as usize, value: band_value(bands[i], band)->0 };
            if i < shorter.len() {
                assert(shorter[i] == bands[i]);
                assert(earlier.contains(plot));
                let k = choose|k: int| 0 <= k < earlier.len() && earlier[k] == plot;
                assert(all[k] == plot);
            } else {
                assert(all[all.len() - 1] == plot);
            }
        }
        assert forall|k: int| 0 <= k < all.len() implies (#[trigger] all[k]).at < bands.len()
            && band_value(bands[all[k].at as int], band) == Some(all[k].value) by {
            if k < earlier.len() {
                assert(all[k] == earlier[k]);
                assert(shorter[earlier[k].at as int] == bands[earlier[k].at as int]);
            }
        }
    }
}

/// The lines of a chart are its closes and its bands, each value at the place of
/// its day: the mean, the upper edge and the lower edge where there are any.
pub proof fn charts_draw_the_closes_and_the_bands<N: Numerics>(
    num: &N,
    h: TickerHistory,
    chart: ChartModel,
    i: int,
)
    requires
        chart_shown(num, h, chart),
        h.points@.len() <= usize::MAX,
        h.bands@.len() <= usize::MAX,
    ensures
        chart.close@.len() == h.points@.len(),
        0 <= i < h.points@.len() ==> chart.close@[i].at == i && chart.close@[i].value
            == h.points@[i].close,
        0 <= i < h.bands@.len() && h.bands@[i].sma is Some ==> chart.sma@.contains(
            (Plot { at: i as usize, value: h.bands@[i].sma->0 }),
        ),
        0 <= i < h.bands@.len() && h.bands@[i].upper is Some ==> chart.upper@.contains(
            (Plot { at: i as usize, value: h.bands@[i].upper->0 }),
        ),
        0 <= i < h.bands@.len() && h.bands@[i].lower is Some ==> chart.lower@.contains(
            (Plot { at: i as usize, value: h.bands@[i].lower->0 }),
        ),
        0 <= i < chart.sma@.len() ==> chart.sma@[i].at < h.bands@.len()
            && h.bands@[chart.sma@[i].at as int].sma == Some(chart.sma@[i].value),
        0 <= i < chart.upper@.len() ==> chart.upper@[i].at < h.bands@.len()
            && h.bands@[chart.upper@[i].at as int].upper == Some(chart.upper@[i].value),
        0 <= i < chart.lower@.len() ==> chart.lower@[i].at < h.bands@.len()
            && h.bands@[chart.lower@[i].at as int].lower == Some(chart.lower@[i].value),
{
    lemma_band_line(h.bands@, Band::Sma);
    lemma_band_line(h.bands@, Band::Upper);
    lemma_band_line(h.bands@, Band::Lower);
}

/// Whether every value of a line lies between two numbers.
pub open spec fn lies_between(line: Seq<Plot>, lo: Number, hi: Number) -> bool {
    forall|i: int|
        0 <= i < line.len() && !(#[trigger] line[i]).value.nan() ==> line[i].value.not_below(lo)
            && hi.not_below(line[i].value)
}

proof fn lemma_line_between(line: Seq<Plot>, low_start: Number, high_start: Number)
    requires
        !low_start.nan(),
        !high_start.nan(),
    ensures
        !least(line, low_start).nan(),
        !greatest(line, high_start).nan(),
        low_start.not_below(least(line, low_start)),
        greatest(line, high_start).not_below(high_start),
        lies_between(line, least(line, low_start), greatest(line, high_start)),
    decreases line.len(),
{
    lemma_least_from_start(line, low_start);
    lemma_greatest_from_start(line, high_start);
    assert forall|i: int| 0 <= i < line.len() && !(#[trigger] line[i]).value.nan() implies
        line[i].value.not_below(least(line, low_start)) && greatest(line, high_start).not_below(
        line[i].value,
    ) by {
        least_is_least(line, low_start, i);
        greatest_is_greatest(line, high_start, i);
    }
}

/// The axis of a chart holds every line: it runs from a margin below the least
/// value to a margin above the greatest, and the margin is a hundredth at least.
/// Where the values have no bounds, it runs around zero and one.
pub proof fn charts_hold_every_line<N: Numerics>(num: &N, h: TickerHistory, chart: ChartModel)
    requires
        chart_shown(num, h, chart),
    ensures
        exists|lo: Number, hi: Number, margin: Number|
            {
                &&& #[trigger] call_ensures(N::minus, (num, lo, margin), chart.low)
                &&& #[trigger] call_ensures(N::plus, (num, hi, margin), chart.high)
                &&& margin.not_below(Number { bits: 0x3f84_7ae1_47ae_147b })
                &&& ({
                    ||| lies_between(chart.close@, lo, hi) && lies_between(chart.sma@, lo, hi)
                        && lies_between(chart.upper@, lo, hi) && lies_between(chart.lower@, lo, hi)
                    ||| lo == (Number { bits: 0 }) && hi == (Number {
                        bits: 0x3ff0_0000_0000_0000,
                    })
                })
            },
{
    let (lo, hi) = extremes(chart.close@, chart.sma@, chart.upper@, chart.lower@);
    let (range, share) = choose|range: Number, share: Number|
        {
            let least_margin = Number { bits: LEAST_MARGIN_BITS };
            let margin = if share.above(least_margin) {
                share
            } else {
                least_margin
            };
            &&& #[trigger] difference(num, hi, lo, range)
            &&& #[trigger] product(num, range, Number { bits: MARGIN_BITS }, share)
            &&& difference(num, lo, margin, chart.low)
            &&& sum(num, hi, margin, chart.high)
        };
    let least_margin = Number { bits: LEAST_MARGIN_BITS };
    let margin = if share.above(least_margin) {
        share
    } else {
        least_margin
    };
    let a = least(chart.close@, infinity());
    let b = least(chart.sma@, a);
    let c = least(chart.upper@, b);
    let x = greatest(chart.close@, negative_infinity());
    let y = greatest(chart.sma@, x);
    let z = greatest(chart.upper@, y);
    lemma_line_between(chart.close@, infinity(), negative_infinity());
    lemma_line_between(chart.sma@, a, x);
    lemma_line_between(chart.upper@, b, y);
    lemma_line_between(chart.lower@, c, z);
    assert(call_ensures(N::minus, (num, lo, margin), chart.low));
    assert(call_ensures(N::plus, (num, hi, margin), chart.high));
}

/// A progress bar is 24 characters wide, and the count beside it tells how many
/// items are done, and of how many.
pub proof fn bars_are_as_wide_as_ever(done: usize, total: usize, filled: usize)
    requires
        total > 1,
        filled <= 24,
    ensures
        bar_spans(done, total, filled).len() == 3,
        bar_spans(done, total, filled)[0].text.len() == filled,
        bar_spans(done, total, filled)[0].text.len() + bar_spans(
            done,
            total,
            filled,
        )[1].text.len() == 24,
        holds(bar_spans(done, total, filled)[2].text, decimal(done as nat)),
        holds(bar_spans(done, total, filled)[2].text, decimal(total as nat)),
{
    broadcast use {lemma_parts_hold, lemma_holds_itself};

}

/// The banner is green exactly where prices can be fetched, and then names the
/// provider.
pub proof fn banners_tell_whether_prices_come(st: ProviderStatus)
    ensures
        banner_of(Some(st)).look.fg == Some(Color::Green) <==> st.selected is Some && st.ready,
        st.selected matches Some(p) ==> holds(banner_of(Some(st)).text, p.label@),
{
    broadcast use {lemma_parts_hold, lemma_holds_itself};

}

/// The form on the screen shows what is typed, each text in its own field; the
/// one that is edited has the cursor behind it. A sale has no price.
pub proof fn forms_show_what_is_typed(form: TradeFormView)
    ensures
        trade_fields(form).len() == if form.side == TradeSide::Buy {
            3int
        } else {
            2int
        },
        holds(trade_fields(form)[0].text, form.ticker),
        holds(trade_fields(form)[1].text, form.shares),
        form.side == TradeSide::Buy && form.price.len() > 0 ==> holds(
            trade_fields(form)[2].text,
            form.price,
        ),
{
    broadcast use {lemma_parts_hold, lemma_holds_itself};

}

/// The laws on what is shown hold of what is drawn: of the rows, cards, charts
/// and lines that this module's functions return.
pub proof fn laws_hold_of_what_is_drawn<N: Numerics>(
    num: &N,
    row: &HoldingRow,
    line: &TransactionRow,
    cells: Vec<Span>,
    totals: &PortfolioSummary,
    h: &TickerHistory,
    cards: Vec<Card>,
    model: Option<ChartModel>,
    tick: usize,
    job: &JobState,
    provider: &Option<ProviderStatus>,
    banner: Span,
)
    ensures
        call_ensures(holding_row::<N>, (num, row), cells) ==> holding_shown(num, *row, cells@),
        call_ensures(txn_row::<N>, (num, line), cells) ==> transaction_shown(num, *line, cells@),
        call_ensures(summary_cards::<N>, (num, totals), cards) ==> summary_shown(
            num,
            *totals,
            cards@,
        ),
        call_ensures(detail_cards::<N>, (num, h), cards) ==> detail_shown(num, *h, cards@),
        call_ensures(chart::<N>, (num, h), model) ==> (model is Some <==> h.points@.len() > 0) && (
        model is Some ==> chart_shown(num, *h, model->0)),
        call_ensures(progress_line::<N>, (num, tick, job), cells) ==> progress_shown(
            num,
            tick,
            *job,
            span_views(cells@),
        ),
        call_ensures(provider_banner, (provider,), banner) ==> banner@ == banner_of(*provider),
{
}

/// A form drawn shows what the form holds, and a note on the price for a sale
/// alone.
pub proof fn forms_are_drawn_as_they_are(form: &TradeForm, model: TradeModel)
    requires
        call_ensures(trade_model, (form,), model),
    ensures
        span_views(model.title@) == trade_title(form@),
        span_views(model.banner@) == trade_banner(form.mode),
        field_views(model.fields@) == trade_fields(form@),
        model.note is Some <==> form.side == TradeSide::Sell,
{
}

} // verus!
