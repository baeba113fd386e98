//! The state of the terminal client: tabs, cursors, the trade form and the
//! status line, and what keys and the daemon's answers do to them.
//!
//! Where a step needs the daemon or the background worker, it returns the
//! [`Effect`] to have; the answer is handed back to the method named there.

use vstd::prelude::*;

use crate::dates::{
    compute_max_staleness_days, greatest_age, parsed_day, stale, stale_tickers, update_days,
};
use crate::number::{
    counted, quotient, read_as, shown_as, Number, Numerics, ONE_BITS,
};
use crate::portfolio::zero;
use crate::proto::{
    HoldingRow, PortfolioSummary, Request, RequestView, Response, TickerHistory, TransactionRow,
};
use crate::provider::{optional_text, ProviderStatus};
use crate::text::{
    decimal, decimal_text, holds, join, joined, lemma_holds_itself, lemma_parts_hold, same, trim,
    trimmed, uppercase, views,
};
use crate::worker::{Job, JobKind, JobView, Update, UpdateView};

verus! {

/// The tabs.
#[derive(Debug, Clone, Copy, PartialEq, Eq, Structural)]
pub enum Tab {
    Portfolio,
    Detail,
    Trade,
    Transactions,
}

/// The tab at a place, counted round.
pub open spec fn tab_at(place: int) -> Tab {
    if place % 4 == 0 {
        Tab::Portfolio
    } else if place % 4 == 1 {
        Tab::Detail
    } else if place % 4 == 2 {
        Tab::Trade
    } else {
        Tab::Transactions
    }
}

impl Tab {
    /// The tabs in order.
    pub const ALL: [Tab; 4] = [Tab::Portfolio, Tab::Detail, Tab::Trade, Tab::Transactions];

    /// The place of a tab.
    pub open spec fn place(self) -> int {
        match self {
            Tab::Portfolio => 0,
            Tab::Detail => 1,
            Tab::Trade => 2,
            Tab::Transactions => 3,
        }
    }

    /// The name of a tab.
    pub open spec fn name(self) -> Seq<char> {
        match self {
            Tab::Portfolio => "Portfolio"@,
            Tab::Detail => "Detail"@,
            Tab::Trade => "Trade"@,
            Tab::Transactions => "Transactions"@,
        }
    }

    /// The name of a tab.
    pub fn title(self) -> (name: &'static str)
        ensures
            name@ == self.name(),
    {
        match self {
            Tab::Portfolio => "Portfolio",
            Tab::Detail => "Detail",
            Tab::Trade => "Trade",
            Tab::Transactions => "Transactions",
        }
    }

    /// The place of a tab among all.
    pub fn position(self) -> (place: usize)
        ensures
            place == self.place(),
    {
        match self {
            Tab::Portfolio => 0,
            Tab::Detail => 1,
            Tab::Trade => 2,
            Tab::Transactions => 3,
        }
    }

    /// The neighbour of a tab, going round.
    pub fn neighbour(self, forward: bool) -> (tab: Tab)
        ensures
            tab == tab_at(
                self.place() + if forward {
                    1int
                } else {
                    -1int
                },
            ),
    {
        match (self, forward) {
            (Tab::Portfolio, true) => Tab::Detail,
            (Tab::Detail, true) => Tab::Trade,
            (Tab::Trade, true) => Tab::Transactions,
            (Tab::Transactions, true) => Tab::Portfolio,
            (Tab::Portfolio, false) => Tab::Transactions,
            (Tab::Detail, false) => Tab::Portfolio,
            (Tab::Trade, false) => Tab::Detail,
            (Tab::Transactions, false) => Tab::Trade,
        }
    }
}

/// Which way a trade goes.
#[derive(Debug, Clone, Copy, PartialEq, Eq, Structural)]
pub enum TradeSide {
    Buy,
    Sell,
}

/// The fields of the trade form.
#[derive(Debug, Clone, Copy, PartialEq, Eq, Structural)]
pub enum TradeField {
    Ticker,
    Shares,
    Price,
}

/// Whether keys on the trade tab move about or type.
#[derive(Debug, Clone, Copy, PartialEq, Eq, Structural)]
pub enum TradeMode {
    Nav,
    Edit,
}

/// The trade form.
#[derive(Debug, Clone)]
pub struct TradeForm {
    pub side: TradeSide,
    pub field: TradeField,
    pub mode: TradeMode,
    pub ticker: String,
    pub shares: String,
    pub price: String,
}

/// A [`TradeForm`] with its texts as sequences.
#[verifier::ext_equal]
pub struct TradeFormView {
    pub side: TradeSide,
    pub field: TradeField,
    pub mode: TradeMode,
    pub ticker: Seq<char>,
    pub shares: Seq<char>,
    pub price: Seq<char>,
}

impl View for TradeForm {
    type V = TradeFormView;

    open spec fn view(&self) -> TradeFormView {
        TradeFormView {
            side: self.side,
            field: self.field,
            mode: self.mode,
            ticker: self.ticker@,
            shares: self.shares@,
            price: self.price@,
        }
    }
}

/// An empty form for a purchase.
pub open spec fn blank_form() -> TradeFormView {
    TradeFormView {
        side: TradeSide::Buy,
        field: TradeField::Ticker,
        mode: TradeMode::Nav,
        ticker: seq![],
        shares: seq![],
        price: seq![],
    }
}

impl Default for TradeForm {
    fn default() -> (form: TradeForm)
        ensures
            form@ == blank_form(),
    {
        let form = TradeForm {
            side: TradeSide::Buy,
            field: TradeField::Ticker,
            mode: TradeMode::Nav,
            ticker: String::new(),
            shares: String::new(),
            price: String::new(),
        };
        assert(form@ =~= blank_form());
        form
    }
}

/// What a status line is about.
#[derive(Debug, Clone, Copy, PartialEq, Eq, Structural)]
pub enum StatusKind {
    Info,
    Success,
    Warn,
    Error,
}

/// The status line.
#[derive(Debug, Clone)]
pub struct Status {
    pub message: String,
    pub kind: StatusKind,
}

/// A [`Status`] with its text as a sequence.
#[verifier::ext_equal]
pub struct StatusView {
    pub message: Seq<char>,
    pub kind: StatusKind,
}

impl View for Status {
    type V = StatusView;

    open spec fn view(&self) -> StatusView {
        StatusView { message: self.message@, kind: self.kind }
    }
}

impl Default for Status {
    fn default() -> (s: Status)
        ensures
            s@ == (StatusView { message: seq![], kind: StatusKind::Info }),
    {
        let s = Status { message: String::new(), kind: StatusKind::Info };
        assert(s@ =~= (StatusView { message: seq![], kind: StatusKind::Info }));
        s
    }
}

/// How far the job in flight is.
#[derive(Debug, Clone)]
pub struct JobState {
    /// What is happening.
    pub label: String,
    /// Items finished.
    pub done: usize,
    pub total: usize,
    /// The item in flight.
    pub current: String,
}

/// A [`JobState`] with its texts as sequences.
#[verifier::ext_equal]
pub struct JobStateView {
    pub label: Seq<char>,
    pub done: usize,
    pub total: usize,
    pub current: Seq<char>,
}

impl View for JobState {
    type V = JobStateView;

    open spec fn view(&self) -> JobStateView {
        JobStateView {
            label: self.label@,
            done: self.done,
            total: self.total,
            current: self.current@,
        }
    }
}

/// One.
pub open spec fn one() -> Number {
    Number { bits: ONE_BITS }
}

/// A number brought to between zero and one.
pub open spec fn unit_clamped(n: Number) -> Number {
    if zero().above(n) {
        zero()
    } else if n.above(one()) {
        one()
    } else {
        n
    }
}

/// `r` is an outcome of how much of a job is done, from zero to one; a job
/// without items is complete.
pub open spec fn fraction_of<N: Numerics>(num: &N, done: usize, total: usize, r: Number) -> bool {
    if total == 0 {
        r == one()
    } else {
        exists|d: Number, t: Number, q: Number|
            {
                &&& #[trigger] counted(num, done, d)
                &&& #[trigger] counted(num, total, t)
                &&& #[trigger] quotient(num, d, t, q)
                &&& r == unit_clamped(q)
            }
    }
}

impl JobState {
    /// How much is done, from zero to one.
    pub fn fraction<N: Numerics>(&self, num: &N) -> (r: Number)
        ensures
            fraction_of(num, self.done, self.total, r),
    {
        if self.total == 0 {
            return Number::from_bits(ONE_BITS);
        }
        let d = num.count(self.done);
        let t = num.count(self.total);
        let q = num.over(d, t);
        assert(counted(num, self.done, d));
        assert(counted(num, self.total, t));
        assert(quotient(num, d, t, q));
        if Number::zero().exceeds(q) {
            Number::zero()
        } else if q.exceeds(Number::from_bits(ONE_BITS)) {
            Number::from_bits(ONE_BITS)
        } else {
            q
        }
    }
}

/// A key.
#[derive(Debug, Clone, Copy, PartialEq, Eq, Structural)]
pub enum KeyCode {
    Esc,
    Enter,
    Tab,
    BackTab,
    Left,
    Right,
    Up,
    Down,
    Backspace,
    Char(char),
    Other,
}

/// A key with what is held down beside it.
#[derive(Debug, Clone, Copy, PartialEq, Eq, Structural)]
pub struct Key {
    pub code: KeyCode,
    /// Whether the control key is.
    pub control: bool,
    /// Whether any other modifier is.
    pub others: bool,
}

/// A job that is handed to the worker takes the one slot for jobs.
#[derive(Debug, Clone)]
pub struct Claim {
    pub label: String,
    pub total: usize,
    pub current: String,
    /// What the status line says once the worker has the job.
    pub notice: String,
    /// How many days were missed, where the job is to catch up.
    pub catch_up: Option<i64>,
}

/// A [`Claim`] with its texts as sequences.
#[verifier::ext_equal]
pub struct ClaimView {
    pub label: Seq<char>,
    pub total: nat,
    pub current: Seq<char>,
    pub notice: Seq<char>,
    pub catch_up: Option<i64>,
}

impl View for Claim {
    type V = ClaimView;

    open spec fn view(&self) -> ClaimView {
        ClaimView {
            label: self.label@,
            total: self.total as nat,
            current: self.current@,
            notice: self.notice@,
            catch_up: self.catch_up,
        }
    }
}

/// What a step needs of the daemon or the worker.
#[derive(Debug, Clone)]
pub enum Effect {
    Idle,
    /// Ask which provider is configured, then [`App::provider_answered`].
    AskProvider { force: bool },
    /// Ask for the history of a ticker, then [`App::detail_answered`].
    AskHistory { ticker: String },
    /// Ask for the summary, then [`App::refreshed`].
    AskSummary,
    /// Ask for the summary and the ledger, then [`App::summary_loaded`] and
    /// [`App::transactions_loaded`].
    AskBooks,
    /// Hand a job to the worker, then [`App::submitted`].
    Submit { job: Job, claim: Claim },
}

/// An [`Effect`] with its texts as sequences.
#[verifier::ext_equal]
pub enum EffectView {
    Idle,
    AskProvider { force: bool },
    AskHistory { ticker: Seq<char> },
    AskSummary,
    AskBooks,
    Submit { job: JobView, claim: ClaimView },
}

impl View for Effect {
    type V = EffectView;

    open spec fn view(&self) -> EffectView {
        match *self {
            Effect::Idle => EffectView::Idle,
            Effect::AskProvider { force } => EffectView::AskProvider { force },
            Effect::AskHistory { ticker } => EffectView::AskHistory { ticker: ticker@ },
            Effect::AskSummary => EffectView::AskSummary,
            Effect::AskBooks => EffectView::AskBooks,
            Effect::Submit { job, claim } => EffectView::Submit { job: job@, claim: claim@ },
        }
    }
}

/// The state of the client.
#[derive(Debug, Clone)]
pub struct App {
    pub tab: Tab,
    pub summary: Option<PortfolioSummary>,
    /// The selected holding.
    pub holdings_state: Option<usize>,
    /// The selected line of the ledger.
    pub txns_state: Option<usize>,
    pub txns: Vec<TransactionRow>,
    pub detail: Option<TickerHistory>,
    /// The ticker that the detail is, or will be, of.
    pub detail_loading_for: Option<String>,
    pub trade: TradeForm,
    pub status: Status,
    /// Which provider is configured; unknown before the first answer.
    pub provider: Option<ProviderStatus>,
    /// The job in flight. There is never more than one.
    pub job: Option<JobState>,
    /// What to say once the trade in flight is done.
    pub pending_trade_note: String,
    /// How many days the refresh in flight is to catch up on.
    pub catch_up: Option<i64>,
    /// Counts the passes of the event loop.
    pub frame: usize,
    pub should_quit: bool,
}

/// An [`App`] with its texts as sequences.
#[verifier::ext_equal]
pub struct AppView {
    pub tab: Tab,
    pub summary: Option<PortfolioSummary>,
    pub holdings_state: Option<usize>,
    pub txns_state: Option<usize>,
    pub txns: Seq<TransactionRow>,
    pub detail: Option<TickerHistory>,
    pub detail_loading_for: Option<Seq<char>>,
    pub trade: TradeFormView,
    pub status: StatusView,
    pub provider: Option<ProviderStatus>,
    pub job: Option<JobStateView>,
    pub pending_trade_note: Seq<char>,
    pub catch_up: Option<i64>,
    pub frame: usize,
    pub should_quit: bool,
}

/// The view of an optional job.
pub open spec fn optional_job(job: Option<JobState>) -> Option<JobStateView> {
    match job {
        Some(j) => Some(j@),
        None => None,
    }
}

impl View for App {
    type V = AppView;

    open spec fn view(&self) -> AppView {
        AppView {
            tab: self.tab,
            summary: self.summary,
            holdings_state: self.holdings_state,
            txns_state: self.txns_state,
            txns: self.txns@,
            detail: self.detail,
            detail_loading_for: optional_text(self.detail_loading_for),
            trade: self.trade@,
            status: self.status@,
            provider: self.provider,
            job: optional_job(self.job),
            pending_trade_note: self.pending_trade_note@,
            catch_up: self.catch_up,
            frame: self.frame,
            should_quit: self.should_quit,
        }
    }
}

/// The state of a client that has heard nothing yet.
pub open spec fn fresh_app() -> AppView {
    AppView {
        tab: Tab::Portfolio,
        summary: None,
        holdings_state: Some(0),
        txns_state: Some(0),
        txns: seq![],
        detail: None,
        detail_loading_for: None,
        trade: blank_form(),
        status: StatusView { message: seq![], kind: StatusKind::Info },
        provider: None,
        job: None,
        pending_trade_note: seq![],
        catch_up: None,
        frame: 0,
        should_quit: false,
    }
}

/// What is said where no price can be fetched.
pub open spec fn no_provider_text() -> Seq<char> {
    "No price provider configured — run `tickerctl provider set` in a shell"@
}

/// What is said where the worker takes no more jobs.
pub open spec fn no_worker_text() -> Seq<char> {
    "background worker stopped — restart tickerc"@
}

/// What is said on entering a field.
pub open spec fn edit_hint() -> Seq<char> {
    "Edit mode — Esc to leave, Tab next field, Enter submit"@
}

/// The plural ending for so many of something.
pub open spec fn plural(n: int) -> Seq<char> {
    if n == 1 {
        seq![]
    } else {
        "s"@
    }
}

/// A selection moved by one among `len`, going round.
pub open spec fn moved(selected: Option<usize>, len: nat, forward: bool) -> Option<usize> {
    if len == 0 {
        None
    } else {
        let at: int = match selected {
            Some(i) => i as int,
            None => 0,
        };
        Some(
            ((at + if forward {
                1int
            } else {
                -1int
            }) % len as int) as usize,
        )
    }
}

/// A selection kept within `len`; where there was none it is the first, if
/// `renew`.
pub open spec fn kept_within(selected: Option<usize>, len: nat, renew: bool) -> Option<usize> {
    let at: int = match selected {
        Some(i) => i as int,
        None => 0,
    };
    if len == 0 {
        None
    } else if at >= len {
        Some((len - 1) as usize)
    } else if selected is None && renew {
        Some(0)
    } else {
        selected
    }
}

/// The field after one. A sell has no price.
pub open spec fn field_after(field: TradeField, side: TradeSide) -> TradeField {
    match (field, side) {
        (TradeField::Ticker, _) => TradeField::Shares,
        (TradeField::Shares, TradeSide::Buy) => TradeField::Price,
        (TradeField::Shares, TradeSide::Sell) => TradeField::Ticker,
        (TradeField::Price, _) => TradeField::Ticker,
    }
}

/// The field before one. A sell has no price.
pub open spec fn field_before(field: TradeField, side: TradeSide) -> TradeField {
    match (field, side) {
        (TradeField::Ticker, TradeSide::Buy) => TradeField::Price,
        (TradeField::Ticker, TradeSide::Sell) => TradeField::Shares,
        (TradeField::Shares, _) => TradeField::Ticker,
        (TradeField::Price, _) => TradeField::Shares,
    }
}

/// The field after one.
pub fn next_trade_field(field: TradeField, side: TradeSide) -> (next: TradeField)
    ensures
        next == field_after(field, side),
{
    match (field, side) {
        (TradeField::Ticker, _) => TradeField::Shares,
        (TradeField::Shares, TradeSide::Buy) => TradeField::Price,
        (TradeField::Shares, TradeSide::Sell) => TradeField::Ticker,
        (TradeField::Price, _) => TradeField::Ticker,
    }
}

/// The field before one.
pub fn prev_trade_field(field: TradeField, side: TradeSide) -> (prev: TradeField)
    ensures
        prev == field_before(field, side),
{
    match (field, side) {
        (TradeField::Ticker, TradeSide::Buy) => TradeField::Price,
        (TradeField::Ticker, TradeSide::Sell) => TradeField::Shares,
        (TradeField::Shares, _) => TradeField::Ticker,
        (TradeField::Price, _) => TradeField::Shares,
    }
}

/// A selection moved by one among `len`, going round.
pub fn move_table(selected: Option<usize>, len: usize, forward: bool) -> (next: Option<usize>)
    ensures
        next == moved(selected, len as nat, forward),
{
    if len == 0 {
        return None;
    }
    let at: usize = match selected {
        Some(i) => i,
        None => 0,
    };
    if forward {
        let next: u128 = (at as u128 + 1) % len as u128;
        Some(next as usize)
    } else if at == 0 {
        assert((-1int) % (len as int) == len - 1) by (nonlinear_arith)
            requires
                len > 0,
        ;
        Some(len - 1)
    } else {
        Some((at - 1) % len)
    }
}

fn keep_within(selected: Option<usize>, len: usize, renew: bool) -> (kept: Option<usize>)
    ensures
        kept == kept_within(selected, len as nat, renew),
{
    if len == 0 {
        return None;
    }
    match selected {
        None => if renew {
            Some(0)
        } else {
            None
        },
        Some(at) => if at >= len {
            Some(len - 1)
        } else {
            Some(at)
        },
    }
}

impl AppView {
    /// The state with another status line.
    pub open spec fn saying(self, kind: StatusKind, message: Seq<char>) -> AppView {
        AppView { status: StatusView { message, kind }, ..self }
    }

    /// The ticker of the selected holding.
    pub open spec fn selected_ticker(self) -> Option<Seq<char>> {
        match (self.summary, self.holdings_state) {
            (Some(s), Some(i)) => if i < s.rows@.len() {
                Some(s.rows@[i as int].ticker@)
            } else {
                None
            },
            _ => None,
        }
    }

    /// How many holdings there are.
    pub open spec fn holdings(self) -> Seq<HoldingRow> {
        match self.summary {
            Some(s) => s.rows@,
            None => seq![],
        }
    }

    /// Whether a price can be fetched. While that is unknown it is taken to be
    /// so.
    pub open spec fn provider_ready(self) -> bool {
        self.provider is Some ==> self.provider->0.ready
    }

    /// The history of the selected holding is asked for, unless it is there.
    pub open spec fn load_detail(self) -> (AppView, EffectView) {
        match self.selected_ticker() {
            None => (
                (AppView { detail: None, ..self }).saying(
                    StatusKind::Info,
                    "Select a holding on the Portfolio tab first"@,
                ),
                EffectView::Idle,
            ),
            Some(ticker) => if self.detail_loading_for == Some(ticker) && self.detail is Some {
                (self, EffectView::Idle)
            } else {
                (
                    AppView { detail_loading_for: Some(ticker), ..self },
                    EffectView::AskHistory { ticker },
                )
            },
        }
    }

    /// The state once the history is answered.
    pub open spec fn with_detail(self, response: Response) -> AppView {
        match response {
            Response::History(h) => AppView { detail: Some(h), ..self },
            Response::Error { message } => (AppView { detail: None, ..self }).saying(
                StatusKind::Error,
                message@,
            ),
            _ => self.saying(StatusKind::Error, "unexpected response"@),
        }
    }

    /// The state once the summary is answered.
    pub open spec fn with_summary(self, response: Response) -> AppView {
        match response {
            Response::Summary(s) => AppView {
                summary: Some(s),
                holdings_state: kept_within(self.holdings_state, s.rows@.len(), true),
                ..self
            },
            Response::Error { message } => self.saying(StatusKind::Error, message@),
            _ => self.saying(StatusKind::Error, "unexpected response from daemon"@),
        }
    }

    /// The state once the ledger is answered.
    pub open spec fn with_transactions(self, response: Response) -> AppView {
        match response {
            Response::Transactions { rows } => AppView {
                txns: rows@,
                txns_state: kept_within(self.txns_state, rows@.len(), false),
                ..self
            },
            Response::Error { message } => self.saying(StatusKind::Error, message@),
            _ => self.saying(StatusKind::Error, "unexpected response from daemon"@),
        }
    }

    /// The state once the provider is answered.
    pub open spec fn with_provider(self, response: Response) -> AppView {
        match response {
            Response::ProviderStatus(st) => AppView { provider: Some(st), ..self },
            _ => self,
        }
    }

    /// A refresh is handed to the worker, unless a job is in flight, there is
    /// no provider, or nothing needs it.
    pub open spec fn start_refresh(
        self,
        force: bool,
        today: Seq<char>,
        catch_up: Option<i64>,
    ) -> (AppView, EffectView) {
        let tickers = stale(self.holdings(), today, force);
        if self.job is Some {
            (
                self.saying(StatusKind::Warn, self.job->0.label + " already in progress…"@),
                EffectView::Idle,
            )
        } else if !self.provider_ready() {
            (self.saying(StatusKind::Warn, no_provider_text()), EffectView::Idle)
        } else if tickers.len() == 0 {
            (
                self.saying(
                    StatusKind::Info,
                    if self.holdings().len() == 0 {
                        "Nothing to refresh — no holdings yet"@
                    } else {
                        "Every holding already has today's close — press R to re-fetch anyway"@
                    },
                ),
                EffectView::Idle,
            )
        } else {
            (
                self,
                EffectView::Submit {
                    job: JobView::Refresh { tickers },
                    claim: ClaimView {
                        label: "Refreshing"@,
                        total: tickers.len(),
                        current: seq![],
                        notice: "Refreshing…"@,
                        catch_up,
                    },
                },
            )
        }
    }

    /// The state once the worker has taken a job, or has not.
    pub open spec fn with_claim(self, claim: ClaimView, accepted: bool) -> AppView {
        if !accepted {
            self.saying(StatusKind::Error, no_worker_text())
        } else {
            (AppView {
                job: Some(
                    JobStateView {
                        label: claim.label,
                        done: 0,
                        total: claim.total as usize,
                        current: claim.current,
                    },
                ),
                catch_up: claim.catch_up,
                ..self
            }).saying(StatusKind::Info, claim.notice)
        }
    }

    /// What starting up comes to once the provider, the summary and the ledger
    /// are answered: a warning where there is no provider, and a refresh where
    /// the oldest price is a day old or more.
    pub open spec fn booted(self, today: Seq<char>, day: i32) -> (AppView, EffectView) {
        let oldest = greatest_age(update_days(self.holdings()), day);
        if !self.provider_ready() {
            (self.saying(StatusKind::Warn, no_provider_text()), EffectView::Idle)
        } else if oldest is Some && oldest->0 >= 1 {
            self.saying(
                StatusKind::Info,
                "Cache is "@ + decimal(oldest->0 as nat) + " day"@ + plural(oldest->0)
                    + " stale — catching up…"@,
            ).start_refresh(false, today, Some(oldest->0 as i64))
        } else {
            (self, EffectView::Idle)
        }
    }

    /// The state at the next tab, or the one before.
    pub open spec fn cycled(self, forward: bool) -> (AppView, EffectView) {
        let tab = tab_at(
            self.tab.place() + if forward {
                1int
            } else {
                -1int
            },
        );
        let there = AppView { tab, ..self };
        if tab == Tab::Detail {
            there.load_detail()
        } else if tab == Tab::Trade {
            (
                AppView { trade: TradeFormView { mode: TradeMode::Nav, ..self.trade }, ..there },
                EffectView::Idle,
            )
        } else {
            (there, EffectView::Idle)
        }
    }

    /// The state with the cursor of the tab moved. On the detail tab the chart
    /// follows it.
    pub open spec fn cursor_moved(self, forward: bool) -> (AppView, EffectView) {
        let holdings_state = if self.summary is Some {
            moved(self.holdings_state, self.holdings().len(), forward)
        } else {
            self.holdings_state
        };
        match self.tab {
            Tab::Portfolio => (AppView { holdings_state, ..self }, EffectView::Idle),
            Tab::Detail => (AppView {
                holdings_state,
                detail: None,
                detail_loading_for: None,
                ..self
            }).load_detail(),
            Tab::Transactions => (
                AppView {
                    txns_state: moved(self.txns_state, self.txns.len(), forward),
                    ..self
                },
                EffectView::Idle,
            ),
            Tab::Trade => (self, EffectView::Idle),
        }
    }

    /// The state on the trade tab, moving about.
    pub open spec fn at_trade(self) -> AppView {
        (AppView {
            tab: Tab::Trade,
            trade: TradeFormView { mode: TradeMode::Nav, ..self.trade },
            ..self
        }).saying(
            StatusKind::Info,
            "Trade · Nav mode — press i or Enter to edit, j/k to move between fields"@,
        )
    }

    /// The state with a trade begun: typing, and with the selected holding
    /// filled in.
    pub open spec fn trade_started(self, side: TradeSide) -> AppView {
        let selected = self.selected_ticker();
        (AppView {
            tab: Tab::Trade,
            trade: TradeFormView {
                side,
                field: if selected is Some {
                    TradeField::Shares
                } else {
                    TradeField::Ticker
                },
                mode: TradeMode::Edit,
                ticker: if selected is Some {
                    selected->0
                } else {
                    self.trade.ticker
                },
                shares: seq![],
                price: seq![],
            },
            ..self
        }).saying(StatusKind::Info, edit_hint())
    }

    /// Whether keys are typed into the form.
    pub open spec fn editing(self) -> bool {
        self.tab == Tab::Trade && self.trade.mode == TradeMode::Edit
    }

    /// Whether a key submits the form.
    pub open spec fn submits(self, key: Key) -> bool {
        self.editing() && key.code == KeyCode::Enter
    }

    /// The form after a key that is typed into it.
    pub open spec fn edited(self, key: Key) -> AppView {
        let t = self.trade;
        AppView {
            trade: match key.code {
                KeyCode::Tab => TradeFormView { field: field_after(t.field, t.side), ..t },
                KeyCode::BackTab => TradeFormView { field: field_before(t.field, t.side), ..t },
                KeyCode::Left | KeyCode::Right => if key.control {
                    TradeFormView {
                        side: if t.side == TradeSide::Buy {
                            TradeSide::Sell
                        } else {
                            TradeSide::Buy
                        },
                        ..t
                    }
                } else {
                    t
                },
                KeyCode::Backspace => t.with_text(
                    if t.text().len() > 0 {
                        t.text().drop_last()
                    } else {
                        t.text()
                    },
                ),
                KeyCode::Char(c) => if c != ' ' && !key.control {
                    t.with_text(t.text().push(c))
                } else {
                    t
                },
                _ => t,
            },
            ..self
        }
    }

    /// The state after the escape key: out of a field, out of the form, or with
    /// the status line cleared.
    pub open spec fn escaped(self) -> AppView {
        if self.editing() {
            (AppView {
                trade: TradeFormView { mode: TradeMode::Nav, ..self.trade },
                ..self
            }).saying(StatusKind::Info, "Nav mode — press i or Enter to edit a field"@)
        } else if self.tab == Tab::Trade {
            (AppView { tab: Tab::Portfolio, ..self }).saying(
                StatusKind::Info,
                "Cancelled trade"@,
            )
        } else {
            self.saying(StatusKind::Info, seq![])
        }
    }

    /// The form after a key that only the trade tab knows.
    pub open spec fn form_key(self, key: Key) -> Option<AppView> {
        let t = self.trade;
        match key.code {
            KeyCode::Char('i') | KeyCode::Char('a') | KeyCode::Enter => Some(
                (AppView {
                    trade: TradeFormView { mode: TradeMode::Edit, ..t },
                    ..self
                }).saying(StatusKind::Info, edit_hint()),
            ),
            KeyCode::Char('j') | KeyCode::Down => Some(
                AppView {
                    trade: TradeFormView { field: field_after(t.field, t.side), ..t },
                    ..self
                },
            ),
            KeyCode::Char('k') | KeyCode::Up => Some(
                AppView {
                    trade: TradeFormView { field: field_before(t.field, t.side), ..t },
                    ..self
                },
            ),
            _ => None,
        }
    }

    /// The state after a key that every tab knows.
    pub open spec fn global_key(self, key: Key) -> (AppView, EffectView) {
        match key.code {
            KeyCode::Char('q') => (AppView { should_quit: true, ..self }, EffectView::Idle),
            KeyCode::Tab | KeyCode::Char('l') | KeyCode::Right => self.cycled(true),
            KeyCode::BackTab | KeyCode::Char('h') | KeyCode::Left => self.cycled(false),
            KeyCode::Char('1') => (AppView { tab: Tab::Portfolio, ..self }, EffectView::Idle),
            KeyCode::Char('2') => (AppView { tab: Tab::Detail, ..self }).load_detail(),
            KeyCode::Char('3') => (self.at_trade(), EffectView::Idle),
            KeyCode::Char('4') => (AppView { tab: Tab::Transactions, ..self }, EffectView::Idle),
            KeyCode::Char('r') => (self, EffectView::AskProvider { force: false }),
            KeyCode::Char('R') => (self, EffectView::AskProvider { force: true }),
            KeyCode::Char('b') => (self.trade_started(TradeSide::Buy), EffectView::Idle),
            KeyCode::Char('s') => (self.trade_started(TradeSide::Sell), EffectView::Idle),
            KeyCode::Up | KeyCode::Char('k') => self.cursor_moved(false),
            KeyCode::Down | KeyCode::Char('j') => self.cursor_moved(true),
            KeyCode::Enter | KeyCode::Char('d') => if self.tab == Tab::Portfolio {
                (AppView { tab: Tab::Detail, ..self }).load_detail()
            } else {
                (self, EffectView::Idle)
            },
            _ => (self, EffectView::Idle),
        }
    }

    /// The state after a key that does not submit the form.
    pub open spec fn keyed(self, key: Key) -> (AppView, EffectView) {
        if key.control && !key.others && (key.code == KeyCode::Char('c') || key.code
            == KeyCode::Char('q')) {
            (AppView { should_quit: true, ..self }, EffectView::Idle)
        } else if key.code == KeyCode::Esc {
            (self.escaped(), EffectView::Idle)
        } else if self.editing() {
            (self.edited(key), EffectView::Idle)
        } else if self.tab == Tab::Trade && self.form_key(key) is Some {
            (self.form_key(key)->0, EffectView::Idle)
        } else {
            self.global_key(key)
        }
    }

    /// The state once a job has ended.
    pub open spec fn job_finished(
        self,
        kind: JobKind,
        ok: nat,
        failed: Seq<Seq<char>>,
    ) -> (AppView, EffectView) {
        let idle = AppView { job: None, ..self };
        match kind {
            JobKind::Refresh => (
                (AppView { catch_up: None, ..idle }).saying(
                    if failed.len() == 0 {
                        StatusKind::Success
                    } else {
                        StatusKind::Warn
                    },
                    if failed.len() > 0 {
                        "Refreshed "@ + decimal(ok) + ", "@ + decimal(failed.len()) + " failed — "@
                            + join(failed, "; "@)
                    } else if self.catch_up is Some && self.catch_up->0 >= 0 {
                        "Caught up after "@ + decimal(self.catch_up->0 as nat) + " day"@ + plural(
                            self.catch_up->0 as int,
                        ) + " offline"@
                    } else {
                        "Refreshed "@ + decimal(ok) + " ticker"@ + plural(ok as int)
                    },
                ),
                EffectView::AskSummary,
            ),
            JobKind::Trade => if failed.len() > 0 {
                (idle.saying(StatusKind::Error, failed[0]), EffectView::Idle)
            } else {
                (
                    (AppView {
                        tab: Tab::Portfolio,
                        trade: TradeFormView {
                            mode: TradeMode::Nav,
                            shares: seq![],
                            price: seq![],
                            ..self.trade
                        },
                        ..idle
                    }).saying(StatusKind::Success, self.pending_trade_note),
                    EffectView::AskBooks,
                )
            },
        }
    }

    /// The state after a report of the worker.
    pub open spec fn updated(self, update: UpdateView) -> (AppView, EffectView) {
        match update {
            UpdateView::Started { label, total } => (
                AppView {
                    job: match self.job {
                        Some(j) => Some(JobStateView { label, total: total as usize, ..j }),
                        None => None,
                    },
                    ..self
                },
                EffectView::Idle,
            ),
            UpdateView::Progress { done, current } => (
                AppView {
                    job: match self.job {
                        Some(j) => Some(JobStateView { done: done as usize, current, ..j }),
                        None => None,
                    },
                    ..self
                },
                EffectView::Idle,
            ),
            UpdateView::Finished { kind, ok, failed } => self.job_finished(kind, ok, failed),
            UpdateView::Disconnected { message } => (
                (AppView { job: None, ..self }).saying(
                    StatusKind::Error,
                    "lost the background connection: "@ + message + " — restart tickerc"@,
                ),
                EffectView::Idle,
            ),
        }
    }

    /// The state once the summary is answered after a refresh. On the detail
    /// tab the chart is loaded anew.
    pub open spec fn after_refresh(self, response: Response) -> (AppView, EffectView) {
        let there = self.with_summary(response);
        if there.tab == Tab::Detail {
            (AppView { detail: None, detail_loading_for: None, ..there }).load_detail()
        } else {
            (there, EffectView::Idle)
        }
    }
}

impl TradeFormView {
    /// The text of the field that is being edited.
    pub open spec fn text(self) -> Seq<char> {
        match self.field {
            TradeField::Ticker => self.ticker,
            TradeField::Shares => self.shares,
            TradeField::Price => self.price,
        }
    }

    /// The form with another text in that field.
    pub open spec fn with_text(self, text: Seq<char>) -> TradeFormView {
        match self.field {
            TradeField::Ticker => TradeFormView { ticker: text, ..self },
            TradeField::Shares => TradeFormView { shares: text, ..self },
            TradeField::Price => TradeFormView { price: text, ..self },
        }
    }
}

impl App {
    /// A client that has heard nothing yet.
    pub fn new() -> (app: App)
        ensures
            app@ == fresh_app(),
    {
        let app = App {
            tab: Tab::Portfolio,
            summary: None,
            holdings_state: Some(0),
            txns_state: Some(0),
            txns: Vec::new(),
            detail: None,
            detail_loading_for: None,
            trade: TradeForm::default(),
            status: Status::default(),
            provider: None,
            job: None,
            pending_trade_note: String::new(),
            catch_up: None,
            frame: 0,
            should_quit: false,
        };
        assert(app@ =~= fresh_app());
        app
    }

    /// Says something on the status line.
    pub fn set_status(&mut self, kind: StatusKind, message: &str)
        ensures
            final(self)@ == old(self)@.saying(kind, message@),
    {
        self.status = Status { message: message.to_owned(), kind };
    }

    /// The selected holding.
    pub fn selected_holding(&self) -> (row: Option<&HoldingRow>)
        ensures
            match row {
                Some(r) => self@.selected_ticker() == Some(r.ticker@) && self.summary is Some
                    && self.holdings_state is Some && self.holdings_state->0
                    < self.summary->0.rows@.len() && *r
                    == self.summary->0.rows@[self.holdings_state->0 as int],
                None => self@.selected_ticker() is None,
            },
    {
        match (&self.summary, self.holdings_state) {
            (Some(s), Some(i)) => if i < s.rows.len() {
                Some(&s.rows[i])
            } else {
                None
            },
            _ => None,
        }
    }

    fn provider_ready(&self) -> (b: bool)
        ensures
            b == self@.provider_ready(),
    {
        match &self.provider {
            Some(p) => p.ready,
            None => true,
        }
    }

    fn maybe_load_detail(&mut self) -> (effect: Effect)
        ensures
            (final(self)@, effect@) == old(self)@.load_detail(),
    {
        let ticker = match self.selected_holding() {
            Some(h) => h.ticker.clone(),
            None => {
                self.detail = None;
                self.set_status(StatusKind::Info, "Select a holding on the Portfolio tab first");
                return Effect::Idle;
            },
        };
        let loaded = match &self.detail_loading_for {
            Some(t) => same(t.as_str(), ticker.as_str()) && self.detail.is_some(),
            None => false,
        };
        if loaded {
            return Effect::Idle;
        }
        self.detail_loading_for = Some(ticker.clone());
        Effect::AskHistory { ticker }
    }

    /// Takes the history of a ticker.
    pub fn detail_answered(&mut self, response: Response)
        ensures
            final(self)@ == old(self)@.with_detail(response),
    {
        match response {
            Response::History(h) => {
                self.detail = Some(h);
            },
            Response::Error { message } => {
                self.detail = None;
                self.set_status(StatusKind::Error, message.as_str());
            },
            _ => {
                self.set_status(StatusKind::Error, "unexpected response");
            },
        }
    }

    /// Takes the summary.
    pub fn summary_loaded(&mut self, response: Response)
        ensures
            final(self)@ == old(self)@.with_summary(response),
    {
        match response {
            Response::Summary(s) => {
                self.holdings_state = keep_within(self.holdings_state, s.rows.len(), true);
                self.summary = Some(s);
            },
            Response::Error { message } => {
                self.set_status(StatusKind::Error, message.as_str());
            },
            _ => {
                self.set_status(StatusKind::Error, "unexpected response from daemon");
            },
        }
    }

    /// Takes the ledger.
    pub fn transactions_loaded(&mut self, response: Response)
        ensures
            final(self)@ == old(self)@.with_transactions(response),
    {
        match response {
            Response::Transactions { rows } => {
                self.txns_state = keep_within(self.txns_state, rows.len(), false);
                self.txns = rows;
            },
            Response::Error { message } => {
                self.set_status(StatusKind::Error, message.as_str());
            },
            _ => {
                self.set_status(StatusKind::Error, "unexpected response from daemon");
            },
        }
    }

    /// Takes which provider is configured.
    pub fn provider_loaded(&mut self, response: Response)
        ensures
            final(self)@ == old(self)@.with_provider(response),
    {
        match response {
            Response::ProviderStatus(st) => {
                self.provider = Some(st);
            },
            _ => {},
        }
    }

    fn start_refresh(&mut self, force: bool, today: &str, catch_up: Option<i64>) -> (effect: Effect)
        ensures
            (final(self)@, effect@) == old(self)@.start_refresh(force, today@, catch_up),
    {
        let busy: Option<String> = match &self.job {
            Some(job) => Some(job.label.clone()),
            None => None,
        };
        match busy {
            Some(label) => {
                let message = label.concat(" already in progress…");
                self.set_status(StatusKind::Warn, message.as_str());
                return Effect::Idle;
            },
            None => {},
        }
        if !self.provider_ready() {
            self.set_status(
                StatusKind::Warn,
                "No price provider configured — run `tickerctl provider set` in a shell",
            );
            return Effect::Idle;
        }
        let mut held: usize = 0;
        let mut tickers: Vec<String> = Vec::new();
        match &self.summary {
            Some(s) => {
                held = s.rows.len();
                tickers = stale_tickers(&s.rows, today, force);
            },
            None => {
                assert(views(tickers@) =~= stale(self@.holdings(), today@, force));
            },
        }
        assert(views(tickers@).len() == tickers@.len());
        if tickers.len() == 0 {
            if held == 0 {
                self.set_status(StatusKind::Info, "Nothing to refresh — no holdings yet");
            } else {
                self.set_status(
                    StatusKind::Info,
                    "Every holding already has today's close — press R to re-fetch anyway",
                );
            }
            return Effect::Idle;
        }
        let claim = Claim {
            label: "Refreshing".to_owned(),
            total: tickers.len(),
            current: String::new(),
            notice: "Refreshing…".to_owned(),
            catch_up,
        };
        assert(claim.current@ =~= seq![]);
        Effect::Submit { job: Job::Refresh { tickers }, claim }
    }

    /// Takes which provider is configured, and refreshes.
    pub fn provider_answered(&mut self, response: Response, force: bool, today: &str) -> (effect:
        Effect)
        ensures
            (final(self)@, effect@) == old(self)@.with_provider(response).start_refresh(
                force,
                today@,
                None,
            ),
    {
        self.provider_loaded(response);
        self.start_refresh(force, today, None)
    }

    /// Takes whether the worker has a job.
    pub fn submitted(&mut self, claim: Claim, accepted: bool)
        ensures
            final(self)@ == old(self)@.with_claim(claim@, accepted),
    {
        if !accepted {
            self.set_status(StatusKind::Error, "background worker stopped — restart tickerc");
            return ;
        }
        let notice = claim.notice;
        self.job =
        Some(
            JobState { label: claim.label, done: 0, total: claim.total, current: claim.current },
        );
        self.catch_up = claim.catch_up;
        self.set_status(StatusKind::Info, notice.as_str());
    }

    /// Starts up, once the provider, the summary and the ledger are taken:
    /// `today` as a date, and as a day.
    pub fn boot(&mut self, today: &str, day: i32) -> (effect: Effect)
        ensures
            (final(self)@, effect@) == old(self)@.booted(today@, day),
    {
        if !self.provider_ready() {
            self.set_status(
                StatusKind::Warn,
                "No price provider configured — run `tickerctl provider set` in a shell",
            );
            return Effect::Idle;
        }
        let oldest = match &self.summary {
            Some(s) => compute_max_staleness_days(&s.rows, day),
            None => {
                assert(update_days(self@.holdings()) =~= seq![]);
                None
            },
        };
        match oldest {
            Some(days) => {
                if days >= 1 {
                    let mut message = "Cache is ".to_owned();
                    message.append(decimal_text(days as u64).as_str());
                    message.append(" day");
                    message.append(plural_text(days as u64).as_str());
                    message.append(" stale — catching up…");
                    self.set_status(StatusKind::Info, message.as_str());
                    return self.start_refresh(false, today, Some(days));
                }
            },
            None => {},
        }
        Effect::Idle
    }
}

fn plural_text(n: u64) -> (ending: String)
    ensures
        ending@ == plural(n as int),
{
    if n == 1 {
        let ending = String::new();
        assert(ending@ =~= seq![]);
        ending
    } else {
        "s".to_owned()
    }
}

/// `price` is an outcome of reading the price of a form: nothing where it is
/// wrong, no price for a sell or a blank field.
pub open spec fn price_read<N: Numerics>(
    num: &N,
    form: TradeFormView,
    price: Option<Option<Number>>,
) -> bool {
    if form.side == TradeSide::Sell || trim(form.price).len() == 0 {
        price == Some(None::<Number>)
    } else {
        exists|r: Option<Number>| #[trigger]
            read_as(num, trim(form.price), r) && price == if r is Some && r->0.above(zero()) {
                Some(r)
            } else {
                None
            }
    }
}

/// The request a form makes.
pub open spec fn form_request(
    side: TradeSide,
    ticker: Seq<char>,
    shares: Number,
    price: Option<Number>,
) -> RequestView {
    match side {
        TradeSide::Buy => RequestView::Buy { ticker, shares, price },
        TradeSide::Sell => RequestView::Sell { ticker, shares },
    }
}

/// What a trade is called while it goes on, `amount` being its shares in
/// writing.
pub open spec fn trade_label(side: TradeSide, amount: Seq<char>, ticker: Seq<char>) -> Seq<char> {
    (match side {
        TradeSide::Buy => "Buying"@,
        TradeSide::Sell => "Selling"@,
    }) + " "@ + amount + " "@ + ticker
}

/// What is said of a trade that is done.
pub open spec fn trade_note(side: TradeSide, amount: Seq<char>, ticker: Seq<char>) -> Seq<char> {
    (match side {
        TradeSide::Buy => "Bought"@,
        TradeSide::Sell => "Sold"@,
    }) + " "@ + amount + " "@ + ticker + " (simulated)"@
}

/// `after` and `effect` are an outcome of submitting the form with these shares
/// and this price.
pub open spec fn trade_placed<N: Numerics>(
    num: &N,
    before: AppView,
    ticker: Seq<char>,
    shares: Number,
    price: Option<Number>,
    after: AppView,
    effect: EffectView,
) -> bool {
    if before.job is Some {
        after == before.saying(
            StatusKind::Warn,
            before.job->0.label + " in progress — try again in a moment"@,
        ) && effect == EffectView::Idle
    } else {
        exists|amount: Seq<char>|
            {
                let side = before.trade.side;
                let label = trade_label(side, amount, ticker);
                &&& #[trigger] shown_as(num, shares, amount)
                &&& after == (AppView {
                    pending_trade_note: trade_note(side, amount, ticker),
                    ..before
                })
                &&& effect == (EffectView::Submit {
                    job: JobView::Trade {
                        request: form_request(side, ticker, shares, price),
                        label,
                    },
                    claim: ClaimView {
                        label,
                        total: 1,
                        current: label,
                        notice: "Submitting…"@,
                        catch_up: before.catch_up,
                    },
                })
            }
    }
}

/// `after` and `effect` are an outcome of submitting the form.
pub open spec fn trade_submitted<N: Numerics>(
    num: &N,
    before: AppView,
    after: AppView,
    effect: EffectView,
) -> bool {
    let ticker = uppercase(trim(before.trade.ticker));
    if ticker.len() == 0 {
        after == before.saying(StatusKind::Error, "ticker is required"@) && effect
            == EffectView::Idle
    } else {
        exists|shares: Option<Number>, price: Option<Option<Number>>|
            {
                &&& #[trigger] read_as(num, trim(before.trade.shares), shares)
                &&& #[trigger] price_read(num, before.trade, price)
                &&& if shares is None || !shares->0.above(zero()) {
                    after == before.saying(
                        StatusKind::Error,
                        "shares must be a positive number"@,
                    ) && effect == EffectView::Idle
                } else if price is None {
                    after == before.saying(
                        StatusKind::Error,
                        "price must be positive or blank"@,
                    ) && effect == EffectView::Idle
                } else {
                    trade_placed(num, before, ticker, shares->0, price->0, after, effect)
                }
            }
    }
}

/// `after` and `effect` are an outcome of pressing a key.
pub open spec fn pressed<N: Numerics>(
    num: &N,
    before: AppView,
    key: Key,
    after: AppView,
    effect: EffectView,
) -> bool {
    if before.submits(key) {
        trade_submitted(num, before, after, effect)
    } else {
        (after, effect) == before.keyed(key)
    }
}

impl App {
    fn read_price<N: Numerics>(&self, num: &N) -> (price: Option<Option<Number>>)
        ensures
            price_read(num, self@.trade, price),
    {
        if self.trade.side == TradeSide::Sell {
            return Some(None);
        }
        let text = trimmed(self.trade.price.as_str());
        if text.as_str().unicode_len() == 0 {
            return Some(None);
        }
        let r = num.parse(text.as_str());
        assert(read_as(num, trim(self@.trade.price), r));
        match r {
            Some(p) => if p.exceeds(Number::zero()) {
                Some(Some(p))
            } else {
                None
            },
            None => None,
        }
    }

    fn place_trade<N: Numerics>(
        &mut self,
        num: &N,
        ticker: String,
        shares: Number,
        price: Option<Number>,
    ) -> (effect: Effect)
        ensures
            trade_placed(num, old(self)@, ticker@, shares, price, final(self)@, effect@),
    {
        let busy: Option<String> = match &self.job {
            Some(job) => Some(job.label.clone()),
            None => None,
        };
        match busy {
            Some(label) => {
                let message = label.concat(" in progress — try again in a moment");
                self.set_status(StatusKind::Warn, message.as_str());
                return Effect::Idle;
            },
            None => {},
        }
        let amount = num.show(shares);
        assert(shown_as(num, shares, amount@));
        let mut note: String;
        let mut label: String;
        match self.trade.side {
            TradeSide::Buy => {
                note = "Bought".to_owned();
                label = "Buying".to_owned();
            },
            TradeSide::Sell => {
                note = "Sold".to_owned();
                label = "Selling".to_owned();
            },
        }
        note.append(" ");
        note.append(amount.as_str());
        note.append(" ");
        note.append(ticker.as_str());
        note.append(" (simulated)");
        label.append(" ");
        label.append(amount.as_str());
        label.append(" ");
        label.append(ticker.as_str());
        self.pending_trade_note = note;
        let request = match self.trade.side {
            TradeSide::Buy => Request::Buy { ticker, shares, price },
            TradeSide::Sell => Request::Sell { ticker, shares },
        };
        let claim = Claim {
            label: label.clone(),
            total: 1,
            current: label.clone(),
            notice: "Submitting…".to_owned(),
            catch_up: self.catch_up,
        };
        Effect::Submit { job: Job::Trade { request, label }, claim }
    }

    fn submit_trade<N: Numerics>(&mut self, num: &N) -> (effect: Effect)
        ensures
            trade_submitted(num, old(self)@, final(self)@, effect@),
    {
        let ticker = trimmed(self.trade.ticker.as_str()).as_str().to_uppercase();
        if ticker.as_str().unicode_len() == 0 {
            self.set_status(StatusKind::Error, "ticker is required");
            return Effect::Idle;
        }
        let text = trimmed(self.trade.shares.as_str());
        let shares = num.parse(text.as_str());
        assert(read_as(num, trim(self@.trade.shares), shares));
        let price = self.read_price(num);
        assert(price_read(num, self@.trade, price));
        let shares = match shares {
            Some(n) => {
                if !n.exceeds(Number::zero()) {
                    self.set_status(StatusKind::Error, "shares must be a positive number");
                    return Effect::Idle;
                }
                n
            },
            None => {
                self.set_status(StatusKind::Error, "shares must be a positive number");
                return Effect::Idle;
            },
        };
        match price {
            None => {
                self.set_status(StatusKind::Error, "price must be positive or blank");
                Effect::Idle
            },
            Some(price) => self.place_trade(num, ticker, shares, price),
        }
    }

    fn cycle_tab(&mut self, forward: bool) -> (effect: Effect)
        ensures
            (final(self)@, effect@) == old(self)@.cycled(forward),
    {
        self.tab = self.tab.neighbour(forward);
        if self.tab == Tab::Detail {
            return self.maybe_load_detail();
        }
        if self.tab == Tab::Trade {
            self.trade.mode = TradeMode::Nav;
        }
        Effect::Idle
    }

    fn move_cursor(&mut self, forward: bool) -> (effect: Effect)
        ensures
            (final(self)@, effect@) == old(self)@.cursor_moved(forward),
    {
        match self.tab {
            Tab::Portfolio => {
                match &self.summary {
                    Some(s) => {
                        let len: usize = s.rows.len();
                        self.holdings_state = move_table(self.holdings_state, len, forward);
                    },
                    None => {},
                }
                Effect::Idle
            },
            Tab::Detail => {
                match &self.summary {
                    Some(s) => {
                        let len: usize = s.rows.len();
                        self.holdings_state = move_table(self.holdings_state, len, forward);
                    },
                    None => {},
                }
                self.detail_loading_for = None;
                self.detail = None;
                self.maybe_load_detail()
            },
            Tab::Transactions => {
                self.txns_state = move_table(self.txns_state, self.txns.len(), forward);
                Effect::Idle
            },
            Tab::Trade => Effect::Idle,
        }
    }

    fn enter_trade_nav(&mut self)
        ensures
            final(self)@ == old(self)@.at_trade(),
    {
        self.tab = Tab::Trade;
        self.trade.mode = TradeMode::Nav;
        self.set_status(
            StatusKind::Info,
            "Trade · Nav mode — press i or Enter to edit, j/k to move between fields",
        );
    }

    fn start_trade(&mut self, side: TradeSide)
        ensures
            final(self)@ == old(self)@.trade_started(side),
    {
        let selected: Option<String> = match self.selected_holding() {
            Some(h) => Some(h.ticker.clone()),
            None => None,
        };
        self.tab = Tab::Trade;
        self.trade.side = side;
        self.trade.field = TradeField::Ticker;
        self.trade.mode = TradeMode::Edit;
        match selected {
            Some(ticker) => {
                self.trade.ticker = ticker;
                self.trade.field = TradeField::Shares;
            },
            None => {},
        }
        self.trade.shares = String::new();
        self.trade.price = String::new();
        self.set_status(
            StatusKind::Info,
            "Edit mode — Esc to leave, Tab next field, Enter submit",
        );
        assert(self@ =~= old(self)@.trade_started(side));
    }

    fn type_key(&mut self, key: Key)
        ensures
            final(self)@ == old(self)@.edited(key),
    {
        match key.code {
            KeyCode::Tab => {
                self.trade.field = next_trade_field(self.trade.field, self.trade.side);
            },
            KeyCode::BackTab => {
                self.trade.field = prev_trade_field(self.trade.field, self.trade.side);
            },
            KeyCode::Left | KeyCode::Right => {
                if key.control {
                    self.trade.side =
                    match self.trade.side {
                        TradeSide::Buy => TradeSide::Sell,
                        TradeSide::Sell => TradeSide::Buy,
                    };
                }
            },
            KeyCode::Backspace => match self.trade.field {
                TradeField::Ticker => {
                    let _ = self.trade.ticker.pop();
                },
                TradeField::Shares => {
                    let _ = self.trade.shares.pop();
                },
                TradeField::Price => {
                    let _ = self.trade.price.pop();
                },
            },
            KeyCode::Char(c) => {
                if c != ' ' && !key.control {
                    match self.trade.field {
                        TradeField::Ticker => {
                            self.trade.ticker.push(c);
                        },
                        TradeField::Shares => {
                            self.trade.shares.push(c);
                        },
                        TradeField::Price => {
                            self.trade.price.push(c);
                        },
                    }
                }
            },
            _ => {},
        }
        assert(self@ =~= old(self)@.edited(key));
    }

    fn escape(&mut self)
        ensures
            final(self)@ == old(self)@.escaped(),
    {
        if self.tab == Tab::Trade {
            if self.trade.mode == TradeMode::Edit {
                self.trade.mode = TradeMode::Nav;
                self.set_status(
                    StatusKind::Info,
                    "Nav mode — press i or Enter to edit a field",
                );
            } else {
                self.tab = Tab::Portfolio;
                self.set_status(StatusKind::Info, "Cancelled trade");
            }
        } else {
            self.set_status(StatusKind::Info, "");
            proof {
                reveal_strlit("");
                assert(self@ =~= old(self)@.escaped());
            }
        }
    }

    fn form_key(&mut self, key: Key) -> (known: bool)
        ensures
            match old(self)@.form_key(key) {
                Some(after) => known && final(self)@ == after,
                None => !known && final(self)@ == old(self)@,
            },
    {
        match key.code {
            KeyCode::Char('i') | KeyCode::Char('a') | KeyCode::Enter => {
                self.trade.mode = TradeMode::Edit;
                self.set_status(
                    StatusKind::Info,
                    "Edit mode — Esc to leave, Tab next field, Enter submit",
                );
                true
            },
            KeyCode::Char('j') | KeyCode::Down => {
                self.trade.field = next_trade_field(self.trade.field, self.trade.side);
                true
            },
            KeyCode::Char('k') | KeyCode::Up => {
                self.trade.field = prev_trade_field(self.trade.field, self.trade.side);
                true
            },
            _ => false,
        }
    }

    fn global_key(&mut self, key: Key) -> (effect: Effect)
        ensures
            (final(self)@, effect@) == old(self)@.global_key(key),
    {
        match key.code {
            KeyCode::Char('q') => {
                self.should_quit = true;
                Effect::Idle
            },
            KeyCode::Tab | KeyCode::Char('l') | KeyCode::Right => self.cycle_tab(true),
            KeyCode::BackTab | KeyCode::Char('h') | KeyCode::Left => self.cycle_tab(false),
            KeyCode::Char('1') => {
                self.tab = Tab::Portfolio;
                Effect::Idle
            },
            KeyCode::Char('2') => {
                self.tab = Tab::Detail;
                self.maybe_load_detail()
            },
            KeyCode::Char('3') => {
                self.enter_trade_nav();
                Effect::Idle
            },
            KeyCode::Char('4') => {
                self.tab = Tab::Transactions;
                Effect::Idle
            },
            KeyCode::Char('r') => Effect::AskProvider { force: false },
            KeyCode::Char('R') => Effect::AskProvider { force: true },
            KeyCode::Char('b') => {
                self.start_trade(TradeSide::Buy);
                Effect::Idle
            },
            KeyCode::Char('s') => {
                self.start_trade(TradeSide::Sell);
                Effect::Idle
            },
            KeyCode::Up | KeyCode::Char('k') => self.move_cursor(false),
            KeyCode::Down | KeyCode::Char('j') => self.move_cursor(true),
            KeyCode::Enter | KeyCode::Char('d') => if self.tab == Tab::Portfolio {
                self.tab = Tab::Detail;
                self.maybe_load_detail()
            } else {
                Effect::Idle
            },
            _ => Effect::Idle,
        }
    }

    /// Takes a key.
    pub fn on_key<N: Numerics>(&mut self, num: &N, key: Key) -> (effect: Effect)
        ensures
            pressed(num, old(self)@, key, final(self)@, effect@),
    {
        if key.control && !key.others && (key.code == KeyCode::Char('c') || key.code
            == KeyCode::Char('q')) {
            self.should_quit = true;
            return Effect::Idle;
        }
        if key.code == KeyCode::Esc {
            self.escape();
            return Effect::Idle;
        }
        if self.tab == Tab::Trade {
            if self.trade.mode == TradeMode::Edit {
                if key.code == KeyCode::Enter {
                    return self.submit_trade(num);
                }
                self.type_key(key);
                return Effect::Idle;
            }
            if self.form_key(key) {
                return Effect::Idle;
            }
        }
        self.global_key(key)
    }

    fn on_job_finished(&mut self, kind: JobKind, ok: usize, failed: &Vec<String>) -> (effect: Effect)
        ensures
            (final(self)@, effect@) == old(self)@.job_finished(kind, ok as nat, views(failed@)),
    {
        assert(views(failed@).len() == failed@.len());
        self.job = None;
        match kind {
            JobKind::Refresh => {
                let caught_up = self.catch_up;
                self.catch_up = None;
                if failed.len() > 0 {
                    let mut message = "Refreshed ".to_owned();
                    message.append(decimal_text(ok as u64).as_str());
                    message.append(", ");
                    message.append(decimal_text(failed.len() as u64).as_str());
                    message.append(" failed — ");
                    message.append(joined(failed, "; ").as_str());
                    self.set_status(StatusKind::Warn, message.as_str());
                    return Effect::AskSummary;
                }
                let mut message: String;
                match caught_up {
                    Some(days) if days >= 0 => {
                        message = "Caught up after ".to_owned();
                        message.append(decimal_text(days as u64).as_str());
                        message.append(" day");
                        message.append(plural_text(days as u64).as_str());
                        message.append(" offline");
                    },
                    _ => {
                        message = "Refreshed ".to_owned();
                        message.append(decimal_text(ok as u64).as_str());
                        message.append(" ticker");
                        message.append(plural_text(ok as u64).as_str());
                    },
                }
                self.set_status(StatusKind::Success, message.as_str());
                Effect::AskSummary
            },
            JobKind::Trade => {
                if failed.len() > 0 {
                    assert(views(failed@)[0] == failed@[0]@);
                    self.set_status(StatusKind::Error, failed[0].as_str());
                    return Effect::Idle;
                }
                let note = self.pending_trade_note.clone();
                self.set_status(StatusKind::Success, note.as_str());
                self.trade.shares = String::new();
                self.trade.price = String::new();
                self.trade.mode = TradeMode::Nav;
                self.tab = Tab::Portfolio;
                assert(self@ =~= old(self)@.job_finished(kind, ok as nat, views(failed@)).0);
                Effect::AskBooks
            },
        }
    }

    /// Takes a report of the worker.
    pub fn pump_worker(&mut self, update: Update) -> (effect: Effect)
        ensures
            (final(self)@, effect@) == old(self)@.updated(update@),
    {
        match update {
            Update::Started { label, total } => {
                match &mut self.job {
                    Some(job) => {
                        job.label = label;
                        job.total = total;
                    },
                    None => {},
                }
                Effect::Idle
            },
            Update::Progress { done, current } => {
                match &mut self.job {
                    Some(job) => {
                        job.done = done;
                        job.current = current;
                    },
                    None => {},
                }
                Effect::Idle
            },
            Update::Finished { kind, ok, failed } => self.on_job_finished(kind, ok, &failed),
            Update::Disconnected { message } => {
                self.job = None;
                let mut text = "lost the background connection: ".to_owned();
                text.append(message.as_str());
                text.append(" — restart tickerc");
                self.set_status(StatusKind::Error, text.as_str());
                Effect::Idle
            },
        }
    }

    /// Takes the summary after a refresh.
    pub fn refreshed(&mut self, response: Response) -> (effect: Effect)
        ensures
            (final(self)@, effect@) == old(self)@.after_refresh(response),
    {
        self.summary_loaded(response);
        if self.tab == Tab::Detail {
            self.detail_loading_for = None;
            self.detail = None;
            return self.maybe_load_detail();
        }
        Effect::Idle
    }

    /// Counts a pass of the event loop.
    pub fn tick(&mut self)
        ensures
            final(self)@ == (AppView {
                frame: if old(self)@.frame == usize::MAX {
                    0
                } else {
                    (old(self)@.frame + 1) as usize
                },
                ..old(self)@
            }),
    {
        if self.frame == usize::MAX {
            self.frame = 0;
        } else {
            self.frame = self.frame + 1;
        }
    }
}

/// Going to the next tab and back leads to where one was, and four steps lead
/// round.
pub proof fn tabs_go_round(tab: Tab)
    ensures
        tab_at(tab.place()) == tab,
        tab_at(tab_at(tab.place() + 1).place() - 1) == tab,
        tab_at(tab_at(tab_at(tab_at(tab.place() + 1).place() + 1).place() + 1).place() + 1) == tab,
{
}

/// So do the fields of a form; the price is none of a sell's.
pub proof fn fields_go_round(field: TradeField, side: TradeSide)
    requires
        !(field == TradeField::Price && side == TradeSide::Sell),
    ensures
        field_before(field_after(field, side), side) == field,
        field_after(field_before(field, side), side) == field,
        !(field_after(field, side) == TradeField::Price && side == TradeSide::Sell),
        !(field_before(field, side) == TradeField::Price && side == TradeSide::Sell),
{
}

/// A cursor that is moved stays among the rows, and moving it back undoes the
/// move.
pub proof fn cursors_stay_among_the_rows(selected: usize, len: nat, forward: bool)
    requires
        selected < len,
        len <= usize::MAX,
    ensures
        moved(Some(selected), len, forward) is Some,
        moved(Some(selected), len, forward)->0 < len,
        moved(moved(Some(selected), len, forward), len, !forward) == Some(selected),
{
    let n = len as int;
    let at = selected as int;
    let back = (at - 1) % n;
    let on = (at + 1) % n;
    if at + 1 < n {
        vstd::arithmetic::div_mod::lemma_small_mod((at + 1) as nat, len);
    } else {
        vstd::arithmetic::div_mod::lemma_mod_self_0(n);
    }
    if at > 0 {
        vstd::arithmetic::div_mod::lemma_small_mod((at - 1) as nat, len);
        vstd::arithmetic::div_mod::lemma_small_mod(selected as nat, len);
    } else {
        assert((-1int) % n == n - 1) by (nonlinear_arith)
            requires
                n > 0,
        ;
        vstd::arithmetic::div_mod::lemma_mod_self_0(n);
        vstd::arithmetic::div_mod::lemma_small_mod(0, len);
    }
    if on == 0 {
        assert((-1int) % n == n - 1) by (nonlinear_arith)
            requires
                n > 0,
        ;
    } else {
        vstd::arithmetic::div_mod::lemma_small_mod((on - 1) as nat, len);
    }
}

/// After new rows have come, a selection is among them.
pub proof fn selections_survive_new_rows(selected: Option<usize>, len: nat, renew: bool)
    requires
        len <= usize::MAX,
    ensures
        match kept_within(selected, len, renew) {
            Some(i) => i < len,
            None => len == 0 || selected is None && !renew,
        },
{
}

/// There is never more than one job: while one is in flight no key hands
/// another to the worker, nor does an answer or starting up.
pub proof fn one_job_at_a_time<N: Numerics>(
    num: &N,
    before: AppView,
    key: Key,
    after: AppView,
    effect: EffectView,
    force: bool,
    today: Seq<char>,
    day: i32,
    catch_up: Option<i64>,
)
    requires
        before.job is Some,
    ensures
        pressed(num, before, key, after, effect) ==> effect !is Submit && after.job == before.job,
        before.start_refresh(force, today, catch_up).1 !is Submit,
        before.booted(today, day).1 !is Submit,
{
}

/// A job that the worker has taken is in flight at once, so that a second key
/// cannot hand it over again.
pub proof fn claims_take_the_slot(before: AppView, claim: ClaimView)
    ensures
        before.with_claim(claim, true).job is Some,
        before.with_claim(claim, false).job == before.job,
{
}

/// Keys that move about don't leak into the form: while no field is edited, its
/// texts stay as they are, unless a trade is begun.
pub proof fn moving_about_types_nothing<N: Numerics>(
    num: &N,
    before: AppView,
    key: Key,
    after: AppView,
    effect: EffectView,
)
    requires
        !before.editing(),
        pressed(num, before, key, after, effect),
        key.code != KeyCode::Char('b'),
        key.code != KeyCode::Char('s'),
    ensures
        after.trade.ticker == before.trade.ticker,
        after.trade.shares == before.trade.shares,
        after.trade.price == before.trade.price,
{
}

/// Keys that type don't move about: while a field is edited, only escape,
/// Ctrl-C and Ctrl-Q do anything but edit or submit the form.
pub proof fn typing_stays_in_the_form<N: Numerics>(
    num: &N,
    before: AppView,
    key: Key,
    after: AppView,
    effect: EffectView,
)
    requires
        before.editing(),
        pressed(num, before, key, after, effect),
        key.code != KeyCode::Esc,
        !(key.control && !key.others && (key.code == KeyCode::Char('c') || key.code
            == KeyCode::Char('q'))),
    ensures
        after.editing(),
        after.should_quit == before.should_quit,
        after.holdings_state == before.holdings_state,
        after.txns_state == before.txns_state,
        effect is Idle || before.submits(key),
{
}

/// Ctrl-C and Ctrl-Q always quit.
pub proof fn control_c_always_quits<N: Numerics>(
    num: &N,
    before: AppView,
    key: Key,
    after: AppView,
    effect: EffectView,
)
    requires
        key.control,
        !key.others,
        key.code == KeyCode::Char('c') || key.code == KeyCode::Char('q'),
        pressed(num, before, key, after, effect),
    ensures
        after.should_quit,
{
}

/// Escape leads out: from a field to the form, from the form to the portfolio.
pub proof fn escape_leads_out(before: AppView)
    ensures
        !before.escaped().editing(),
        before.tab == Tab::Trade ==> before.escaped().escaped().tab == Tab::Portfolio,
{
}

/// What the form hands to the worker is what it says: the side that is chosen,
/// the ticker without white space around it and in upper case, the shares as
/// they read, which are above zero; and for a purchase the price as it reads,
/// above zero, or none where its field is blank.
pub proof fn forms_ask_for_what_they_say<N: Numerics>(
    num: &N,
    before: AppView,
    key: Key,
    after: AppView,
    job: JobView,
    claim: ClaimView,
)
    requires
        pressed(num, before, key, after, EffectView::Submit { job, claim }),
    ensures
        before.tab == Tab::Trade && before.trade.mode == TradeMode::Edit && key.code
            == KeyCode::Enter,
        before.job is None,
        job matches JobView::Trade { request, .. } && match (before.trade.side, request) {
            (TradeSide::Buy, RequestView::Buy { ticker, shares, price }) => {
                &&& ticker == uppercase(trim(before.trade.ticker))
                &&& ticker.len() > 0
                &&& shares.above(Number { bits: 0 })
                &&& read_as(num, trim(before.trade.shares), Some(shares))
                &&& price is None <==> trim(before.trade.price).len() == 0
                &&& price matches Some(p) ==> p.above(Number { bits: 0 }) && read_as(
                    num,
                    trim(before.trade.price),
                    Some(p),
                )
            },
            (TradeSide::Sell, RequestView::Sell { ticker, shares }) => {
                &&& ticker == uppercase(trim(before.trade.ticker))
                &&& ticker.len() > 0
                &&& shares.above(Number { bits: 0 })
                &&& read_as(num, trim(before.trade.shares), Some(shares))
            },
            _ => false,
        },
        after.trade == before.trade,
{
    assert(before.submits(key)) by {
        if !before.submits(key) {
            assert(before.keyed(key).1 !is Submit);
        }
    }
}

/// A form that asks for nothing says why, and stays as it is.
pub proof fn refused_forms_say_why<N: Numerics>(
    num: &N,
    before: AppView,
    key: Key,
    after: AppView,
    effect: EffectView,
)
    requires
        before.tab == Tab::Trade,
        before.trade.mode == TradeMode::Edit,
        key.code == KeyCode::Enter,
        effect !is Submit,
        pressed(num, before, key, after, effect),
    ensures
        effect is Idle,
        after.trade == before.trade,
        after.job == before.job,
        after.status.kind == StatusKind::Error || after.status.kind == StatusKind::Warn,
        after.status.kind == StatusKind::Warn ==> before.job is Some,
        uppercase(trim(before.trade.ticker)).len() == 0 ==> after.status.message
            == "ticker is required"@,
{
}

/// A key that types adds its character to the field that is edited, and the
/// erasing key takes the last one off; the other fields stay as they are.
pub proof fn typing_changes_the_field_alone<N: Numerics>(
    num: &N,
    before: AppView,
    key: Key,
    c: char,
    after: AppView,
    effect: EffectView,
)
    requires
        before.tab == Tab::Trade,
        before.trade.mode == TradeMode::Edit,
        !key.control,
        key.code == KeyCode::Backspace || key.code == KeyCode::Char(c) && c != ' ',
        pressed(num, before, key, after, effect),
    ensures
        after.trade.side == before.trade.side,
        after.trade.field == before.trade.field,
        after.trade.ticker == if before.trade.field != TradeField::Ticker {
            before.trade.ticker
        } else if key.code == KeyCode::Char(c) {
            before.trade.ticker.push(c)
        } else if before.trade.ticker.len() > 0 {
            before.trade.ticker.drop_last()
        } else {
            before.trade.ticker
        },
        after.trade.shares == if before.trade.field != TradeField::Shares {
            before.trade.shares
        } else if key.code == KeyCode::Char(c) {
            before.trade.shares.push(c)
        } else if before.trade.shares.len() > 0 {
            before.trade.shares.drop_last()
        } else {
            before.trade.shares
        },
        after.trade.price == if before.trade.field != TradeField::Price {
            before.trade.price
        } else if key.code == KeyCode::Char(c) {
            before.trade.price.push(c)
        } else if before.trade.price.len() > 0 {
            before.trade.price.drop_last()
        } else {
            before.trade.price
        },
{
}

/// A refresh goes to the worker exactly where none is in flight, a price can be
/// fetched and some holding needs it; it asks for those holdings, and counts
/// them.
pub proof fn refreshes_are_of_what_needs_it(
    before: AppView,
    force: bool,
    today: Seq<char>,
    catch_up: Option<i64>,
)
    ensures
        before.start_refresh(force, today, catch_up).1 is Submit <==> before.job is None && (
        before.provider is None || before.provider->0.ready) && before.summary is Some && exists|
            i: int,
        |
            0 <= i < before.summary->0.rows@.len() && (force || (
            #[trigger] before.summary->0.rows@[i]).last_updated@ != today),
        before.start_refresh(force, today, catch_up).1 matches EffectView::Submit { job, claim }
            ==> job == (JobView::Refresh { tickers: stale(before.summary->0.rows@, today, force) })
            && claim.total == stale(before.summary->0.rows@, today, force).len() && claim.catch_up
            == catch_up,
        before.start_refresh(force, today, catch_up).0.job == before.job,
        before.start_refresh(force, today, catch_up).0.summary == before.summary,
{
    crate::dates::only_stale_rows_are_fetched(before.holdings(), today, force);
    let rows = before.holdings();
    if stale(rows, today, force).len() == 0 {
        assert forall|i: int| 0 <= i < rows.len() implies !(force || (
        #[trigger] rows[i]).last_updated@ != today) by {}
    }
}

/// What the daemon answers is kept as it came: the summary, the ledger, the
/// chart and the provider's status. An error is shown in its own words, and
/// takes nothing away but the chart.
pub proof fn answers_are_kept_as_they_came(before: AppView, response: Response)
    ensures
        response matches Response::Summary(s) ==> before.with_summary(response).summary == Some(s),
        response matches Response::Transactions { rows } ==> before.with_transactions(
            response,
        ).txns == rows@,
        response matches Response::History(h) ==> before.with_detail(response).detail == Some(h),
        response matches Response::ProviderStatus(st) ==> before.with_provider(response).provider
            == Some(st),
        response matches Response::Error { message } ==> {
            &&& before.with_summary(response).summary == before.summary
            &&& before.with_summary(response).status.message == message@
            &&& before.with_transactions(response).txns == before.txns
            &&& before.with_transactions(response).status.message == message@
            &&& before.with_detail(response).detail is None
            &&& before.with_detail(response).status.message == message@
        },
{
}

/// The chart that is asked for is that of the holding under the cursor.
pub proof fn charts_are_of_the_selected_holding(before: AppView, ticker: Seq<char>)
    requires
        before.load_detail().1 == (EffectView::AskHistory { ticker }),
    ensures
        before.summary is Some,
        before.holdings_state is Some,
        before.holdings_state->0 < before.summary->0.rows@.len(),
        ticker == before.summary->0.rows@[before.holdings_state->0 as int].ticker@,
        before.load_detail().0.detail_loading_for == Some(ticker),
{
}

/// A trade that is begun is for the holding under the cursor, if there is one,
/// and starts without shares or price.
pub proof fn trades_begin_with_the_selected_holding(before: AppView, side: TradeSide, i: usize)
    requires
        before.summary is Some,
        before.holdings_state == Some(i),
        i < before.summary->0.rows@.len(),
    ensures
        before.trade_started(side).tab == Tab::Trade,
        before.trade_started(side).trade.side == side,
        before.trade_started(side).trade.ticker == before.summary->0.rows@[i as int].ticker@,
        before.trade_started(side).trade.shares.len() == 0,
        before.trade_started(side).trade.price.len() == 0,
{
}

/// Once a job has ended none is in flight. A trade that failed says so and
/// leaves the form; one that went through clears it, and the books are read
/// again. So is the summary after a refresh, whose status tells of failures
/// where there were any.
pub proof fn outcomes_are_told(before: AppView, kind: JobKind, ok: nat, failed: Seq<Seq<char>>)
    ensures
        before.job_finished(kind, ok, failed).0.job is None,
        kind == JobKind::Trade && failed.len() > 0 ==> before.job_finished(
            kind,
            ok,
            failed,
        ).0.status == (StatusView { kind: StatusKind::Error, message: failed[0] })
            && before.job_finished(kind, ok, failed).0.trade == before.trade
            && before.job_finished(kind, ok, failed).1 is Idle,
        kind == JobKind::Trade && failed.len() == 0 ==> before.job_finished(
            kind,
            ok,
            failed,
        ).0.status == (StatusView {
            kind: StatusKind::Success,
            message: before.pending_trade_note,
        }) && before.job_finished(kind, ok, failed).0.trade.shares.len() == 0
            && before.job_finished(kind, ok, failed).0.trade.price.len() == 0
            && before.job_finished(kind, ok, failed).1 is AskBooks,
        kind == JobKind::Refresh ==> before.job_finished(kind, ok, failed).1 is AskSummary && (
        before.job_finished(kind, ok, failed).0.status.kind == StatusKind::Success <==> failed.len()
            == 0),
{
}

/// Progress is a fraction of the whole: the items done by all items, never
/// below zero nor above one; a job without items is complete.
pub proof fn progress_is_a_fraction<N: Numerics>(num: &N, done: usize, total: usize, r: Number)
    requires
        fraction_of(num, done, total, r),
    ensures
        total == 0 ==> r == (Number { bits: 0x3ff0_0000_0000_0000 }),
        !(Number { bits: 0 }).above(r),
        !r.above((Number { bits: 0x3ff0_0000_0000_0000 })),
        total > 0 ==> exists|d: Number, t: Number, q: Number|
            {
                &&& #[trigger] call_ensures(N::count, (num, done), d)
                &&& #[trigger] call_ensures(N::count, (num, total), t)
                &&& #[trigger] call_ensures(N::over, (num, d, t), q)
                &&& !(Number { bits: 0 }).above(q) && !q.above(
                    Number { bits: 0x3ff0_0000_0000_0000 },
                ) ==> r == q
            },
{
    if total > 0 {
        let (d, t, q) = choose|d: Number, t: Number, q: Number|
            {
                &&& #[trigger] counted(num, done, d)
                &&& #[trigger] counted(num, total, t)
                &&& #[trigger] quotient(num, d, t, q)
                &&& r == unit_clamped(q)
            };
        assert(call_ensures(N::count, (num, done), d));
        assert(call_ensures(N::count, (num, total), t));
        assert(call_ensures(N::over, (num, d, t), q));
    }
}

/// Moving on leads to the next row and moving back to the one before, going
/// round at either end.
pub proof fn cursors_move_by_one(at: usize, len: nat)
    requires
        at < len,
        len <= usize::MAX,
    ensures
        at + 1 < len ==> moved(Some(at), len, true) == Some((at + 1) as usize),
        at + 1 == len ==> moved(Some(at), len, true) == Some(0usize),
        at > 0 ==> moved(Some(at), len, false) == Some((at - 1) as usize),
        at == 0 ==> moved(Some(at), len, false) == Some((len - 1) as usize),
{
    let n = len as int;
    if at + 1 < len {
        vstd::arithmetic::div_mod::lemma_small_mod((at + 1) as nat, len);
    } else {
        vstd::arithmetic::div_mod::lemma_mod_self_0(n);
    }
    if at > 0 {
        vstd::arithmetic::div_mod::lemma_small_mod((at - 1) as nat, len);
    } else {
        assert((-1int) % n == n - 1) by (nonlinear_arith)
            requires
                n > 0,
        ;
    }
}

/// What is said of a trade names its shares and its ticker, before and after.
pub proof fn notes_say_what_is_traded(side: TradeSide, amount: Seq<char>, ticker: Seq<char>)
    ensures
        holds(trade_label(side, amount, ticker), amount),
        holds(trade_label(side, amount, ticker), ticker),
        holds(trade_note(side, amount, ticker), amount),
        holds(trade_note(side, amount, ticker), ticker),
{
    broadcast use {lemma_parts_hold, lemma_holds_itself};

}

/// What the worker reports of a job is what is shown of it: its label and how
/// many items it has, then how many are done and which is in flight. Nothing
/// else is changed by it.
pub proof fn progress_is_shown_as_reported(
    before: AppView,
    job: JobStateView,
    label: Seq<char>,
    total: usize,
    done: usize,
    current: Seq<char>,
)
    requires
        before.job == Some(job),
    ensures
        before.updated(UpdateView::Started { label, total: total as nat }) == (
            (AppView { job: Some(JobStateView { label, total, ..job }), ..before }),
            EffectView::Idle,
        ),
        before.updated(UpdateView::Progress { done: done as nat, current }) == (
            (AppView { job: Some(JobStateView { done, current, ..job }), ..before }),
            EffectView::Idle,
        ),
{
}

/// A job that the worker has taken starts with nothing done, of as many items as
/// were handed over; one that it has not taken is said to be lost.
pub proof fn claims_start_from_nothing(before: AppView, claim: ClaimView)
    requires
        claim.total <= usize::MAX,
    ensures
        before.with_claim(claim, true).job matches Some(job) && job.done == 0 && job.total
            == claim.total && job.label == claim.label && job.current == claim.current,
        before.with_claim(claim, true).catch_up == claim.catch_up,
        before.with_claim(claim, false).status.kind == StatusKind::Error,
{
}

/// What the keys do that every tab knows, while no form is on the screen.
pub proof fn keys_do_what_is_written_below<N: Numerics>(
    num: &N,
    before: AppView,
    key: Key,
    after: AppView,
    effect: EffectView,
)
    requires
        before.tab != Tab::Trade,
        !key.control,
        pressed(num, before, key, after, effect),
    ensures
        key.code == KeyCode::Char('q') ==> after.should_quit,
        key.code != KeyCode::Char('q') ==> after.should_quit == before.should_quit,
        key.code == KeyCode::Char('r') ==> effect == (EffectView::AskProvider { force: false }),
        key.code == KeyCode::Char('R') ==> effect == (EffectView::AskProvider { force: true }),
        key.code == KeyCode::Char('1') ==> after.tab == Tab::Portfolio,
        key.code == KeyCode::Char('2') ==> after.tab == Tab::Detail,
        key.code == KeyCode::Char('3') ==> after.tab == Tab::Trade,
        key.code == KeyCode::Char('4') ==> after.tab == Tab::Transactions,
        key.code == KeyCode::Char('b') ==> after.tab == Tab::Trade && after.trade.side
            == TradeSide::Buy && after.trade.mode == TradeMode::Edit,
        key.code == KeyCode::Char('s') ==> after.tab == Tab::Trade && after.trade.side
            == TradeSide::Sell && after.trade.mode == TradeMode::Edit,
        effect !is Submit,
{
}

/// Starting up catches up: where prices can be fetched, nothing is in flight and
/// some holding's date lies before today, a refresh of what needs it is handed
/// over, with the days that the oldest lies back.
pub proof fn starting_up_catches_up(before: AppView, today: Seq<char>, day: i32, i: int)
    requires
        before.job is None,
        before.provider is None || before.provider->0.ready,
        before.summary is Some,
        0 <= i < before.summary->0.rows@.len(),
        parsed_day(before.summary->0.rows@[i].last_updated@, "%Y-%m-%d"@) is Some,
        parsed_day(before.summary->0.rows@[i].last_updated@, "%Y-%m-%d"@)->0 < day,
        before.summary->0.rows@[i].last_updated@ != today,
    ensures
        before.booted(today, day).1 matches EffectView::Submit { job, claim } && job == (
        JobView::Refresh { tickers: stale(before.summary->0.rows@, today, false) }) && (
        claim.catch_up matches Some(days) && days >= day - parsed_day(
            before.summary->0.rows@[i].last_updated@,
            "%Y-%m-%d"@,
        )->0),
{
    let rows = before.summary->0.rows@;
    let days = update_days(rows);
    crate::dates::rows_have_their_days(rows, i);
    crate::dates::staleness_counts_days(days, day);
    crate::dates::only_stale_rows_are_fetched(rows, today, false);
    assert(days[i] is Some);
    let oldest = greatest_age(days, day)->0;
    assert(oldest >= day - days[i]->0);
    let k = choose|k: int|
        0 <= k < days.len() && (#[trigger] days[k]) is Some && (oldest == day - days[k]->0 || oldest
            == 0 && day <= days[k]->0);
    assert(oldest <= 0xffff_ffff);
}

/// Where no holding has a date that lies back, or there is no provider to ask,
/// nothing is handed over at the start.
pub proof fn starting_up_leaves_what_is_current(before: AppView, today: Seq<char>, day: i32)
    requires
        (before.provider is Some && !before.provider->0.ready) || before.summary is None || forall|
            i: int,
        |
            0 <= i < before.summary->0.rows@.len() ==> {
                let read = parsed_day(
                    (#[trigger] before.summary->0.rows@[i]).last_updated@,
                    "%Y-%m-%d"@,
                );
                read is None || read->0 >= day
            },
    ensures
        before.booted(today, day).1 is Idle,
{
    if before.summary is Some {
        let rows = before.summary->0.rows@;
        let days = update_days(rows);
        crate::dates::staleness_counts_days(days, day);
        if greatest_age(days, day) is Some {
            let oldest = greatest_age(days, day)->0;
            let k = choose|k: int|
                0 <= k < days.len() && (#[trigger] days[k]) is Some && (oldest == day - days[k]->0
                    || oldest == 0 && day <= days[k]->0);
            crate::dates::rows_have_their_days(rows, k);
        }
    } else {
        assert(update_days(before.holdings()) =~= seq![]);
    }
}

/// The laws on cursors, fields and progress hold of what is computed.
pub proof fn laws_hold_of_the_cursors<N: Numerics>(
    num: &N,
    job: &JobState,
    r: Number,
    field: TradeField,
    side: TradeSide,
    moved_to: TradeField,
    selected: Option<usize>,
    len: usize,
    forward: bool,
    place: Option<usize>,
)
    ensures
        call_ensures(JobState::fraction::<N>, (job, num), r) ==> fraction_of(
            num,
            job.done,
            job.total,
            r,
        ),
        call_ensures(next_trade_field, (field, side), moved_to) ==> moved_to == field_after(
            field,
            side,
        ),
        call_ensures(move_table, (selected, len, forward), place) ==> place == moved(
            selected,
            len as nat,
            forward,
        ),
{
}

} // verus!
