//! What the daemon does with a request.
//!
//! A request is answered step by step. [`dispatch`] and every `answer` return
//! the [`Action`] to take next: something to read or write, together with what
//! goes on from its outcome, or the response. Between two steps on the database
//! nobody else may touch it; only while a price is fetched is it let go.

use vstd::prelude::*;

use crate::config::{has_key, Config, ConfigView};
use crate::framing::{bad_request, holds_request};
use crate::number::{shown_as, sum, Number, Numerics, DUST_BITS};
use crate::portfolio::{
    charted, dust, history, positions, reduced, summary, summed_up, zero, Holding, Quote, Quoted,
};
use crate::proto::{
    optional_secret, refusal, PortfolioSummary, PriceSnapshot, Request, RequestView, Response,
    ResponseView, TickerHistory, TransactionRow,
};
use crate::provider::{entry, lookup, optional_text};
use crate::secret::SecretString;
use crate::sources::{
    current_source, provider_status, status_of, PriceSource, PriceSourceView, Providers,
};
use crate::text::{
    holds, join, joined, lemma_holds_itself, lemma_parts_hold, quote, quoted, same, to_chars, trim,
    uppercase, views,
};

verus! {

/// Whether a character may stand in a ticker.
pub open spec fn symbol(c: char) -> bool {
    'A' <= c <= 'Z' || 'a' <= c <= 'z' || '0' <= c <= '9' || c == '.' || c == '-'
}

/// Whether a text is a plausible ticker: one to ten ASCII letters, digits, dots
/// and dashes.
pub open spec fn valid_ticker(t: Seq<char>) -> bool {
    0 < t.len() <= 10 && forall|i: int| 0 <= i < t.len() ==> symbol(#[trigger] t[i])
}

/// What is said of a ticker that is none.
pub open spec fn ticker_problem(t: Seq<char>) -> Option<Seq<char>> {
    if valid_ticker(t) {
        None
    } else {
        Some("invalid ticker "@ + quote(t))
    }
}

/// Whether a result says that nothing is wrong, or what is.
pub open spec fn finds(checked: Result<(), String>, problem: Option<Seq<char>>) -> bool {
    match (checked, problem) {
        (Ok(_), None) => true,
        (Err(message), Some(text)) => message@ == text,
        _ => false,
    }
}

/// Rejects what is no plausible ticker, before it can reach a request to a
/// provider or a client's terminal.
pub fn validate_ticker(t: &str) -> (checked: Result<(), String>)
    ensures
        finds(checked, ticker_problem(t@)),
{
    let chars = to_chars(t);
    let mut plausible = chars.len() > 0 && chars.len() <= 10;
    let mut i: usize = 0;
    while i < chars.len()
        invariant
            i <= chars@.len(),
            chars@ == t@,
            plausible ==> 0 < t@.len() <= 10 && forall|k: int|
                0 <= k < i ==> symbol(#[trigger] t@[k]),
            !plausible ==> !valid_ticker(t@),
        decreases chars@.len() - i,
    {
        let c: char = chars[i];
        if !('A' <= c && c <= 'Z' || 'a' <= c && c <= 'z' || '0' <= c && c <= '9' || c == '.' || c
            == '-') {
            assert(!symbol(t@[i as int]));
            plausible = false;
        }
        i = i + 1;
    }
    if plausible {
        Ok(())
    } else {
        Err("invalid ticker ".to_owned().concat(quoted(t).as_str()))
    }
}

/// Whether a number is finite and strictly positive.
pub open spec fn positive(n: Number) -> bool {
    n.finite() && n.above(zero())
}

/// What is said of a number that has to be finite and strictly positive:
/// `what` it stands for names it.
pub open spec fn amount_problem(what: Seq<char>, n: Number) -> Option<Seq<char>> {
    if !n.finite() {
        Some(what + " must be a finite number"@)
    } else if !n.above(zero()) {
        Some(what + " must be positive"@)
    } else {
        None
    }
}

fn validate_amount(what: &str, n: Number) -> (checked: Result<(), String>)
    ensures
        finds(checked, amount_problem(what@, n)),
{
    if !n.is_finite() {
        return Err(what.to_owned().concat(" must be a finite number"));
    }
    if !n.exceeds(Number::zero()) {
        return Err(what.to_owned().concat(" must be positive"));
    }
    Ok(())
}

/// Rejects share counts that are not strictly positive finite numbers.
pub fn validate_shares(s: Number) -> (checked: Result<(), String>)
    ensures
        finds(checked, amount_problem("shares"@, s)),
{
    validate_amount("shares", s)
}

/// Rejects prices that are not strictly positive finite numbers.
pub fn validate_price_override(p: Number) -> (checked: Result<(), String>)
    ensures
        finds(checked, amount_problem("price"@, p)),
{
    validate_amount("price", p)
}

/// What is accepted is finite and strictly positive; NaN is not.
pub proof fn accepted_amounts_are_positive(what: Seq<char>, n: Number)
    ensures
        amount_problem(what, n) is None <==> positive(n),
        n.nan() ==> amount_problem(what, n) is Some,
{
}

/// What to do next for a request.
#[derive(Debug, Clone)]
pub enum Action {
    /// Send the response. This ends the request.
    Reply(Response),
    /// Read the configuration in force.
    ReadConfig(ConfigQuery),
    /// Store a configuration.
    SaveConfig(ConfigSave),
    /// Erase the stored configuration.
    ClearConfig(ConfigClear),
    /// Put what is stored, with the environment over it, in force and read it.
    ReloadConfig(ConfigQuery),
    /// Read the ledger, newest first.
    ReadLedger(LedgerQuery),
    /// Read the cached prices of a ticker.
    ReadPrice(PriceQuery),
    /// Read on what day any price was last refreshed.
    ReadRefreshDay(Report),
    /// Read which tickers are held.
    ReadHeld(HeldQuery),
    /// Read on what day the price of the sweep's next ticker was fetched.
    ReadUpdated(Sweep),
    /// Ask a provider for the prices of a ticker.
    Fetch(FetchJob),
    /// Write prices to the cache.
    StorePrice(StoreJob),
    /// Append a line to the ledger.
    InsertTrade(Trade),
}

/// What to buy, and at what price if not the latest close.
#[derive(Debug, Clone, Copy, PartialEq, Eq, Structural)]
pub struct Order {
    pub shares: Number,
    pub price: Option<Number>,
}

/// What prices are fetched for.
#[derive(Debug, Clone)]
pub enum FetchUse {
    /// To chart them.
    Chart,
    /// To buy at them.
    Buy(Order),
    /// For the cache alone.
    Refresh,
    /// As part of a sweep.
    Sweep(Sweep),
}

/// Reads the configuration in force.
#[derive(Debug, Clone)]
pub enum ConfigQuery {
    /// To report on it.
    Status,
    /// To fetch a ticker.
    Fetch { ticker: String, purpose: FetchUse },
    /// To refresh what is held.
    Refresh { force: bool },
}

/// Stores a configuration.
#[derive(Debug, Clone)]
pub struct ConfigSave {
    pub config: Config,
}

/// Erases the stored configuration.
#[derive(Debug, Clone, Copy)]
pub struct ConfigClear {}

/// What the ledger is read for.
#[derive(Debug, Clone)]
pub enum LedgerUse {
    /// To list it.
    List,
    /// To report on the holdings: the whole summary or its rows alone.
    Report { whole: bool },
    /// To sell: is that much held?
    Sell { ticker: String, shares: Number },
    /// To chart a ticker with these prices.
    Chart { ticker: String, snapshot: PriceSnapshot },
}

/// Reads the ledger, or what it says of one ticker.
#[derive(Debug, Clone)]
pub struct LedgerQuery {
    pub ticker: Option<String>,
    pub purpose: LedgerUse,
}

/// What cached prices are read for.
#[derive(Debug, Clone)]
pub enum PriceUse {
    /// To see whether there are any to chart.
    Check,
    /// To chart them.
    Chart,
    Buy(Order),
    Sell { shares: Number },
    /// To value a holding of a report.
    Quote(Report),
}

/// Reads the cached prices of a ticker.
#[derive(Debug, Clone)]
pub struct PriceQuery {
    pub ticker: String,
    pub purpose: PriceUse,
}

/// A report in the making: what is held, and the price of the first few.
#[derive(Debug, Clone)]
pub struct Report {
    pub whole: bool,
    pub held: Vec<Holding>,
    pub quoted: Vec<Quoted>,
}

/// Reads which tickers are held.
#[derive(Debug, Clone)]
pub struct HeldQuery {
    pub source: PriceSource,
    pub force: bool,
}

/// A refresh of the held tickers, one after another.
#[derive(Debug, Clone)]
pub struct Sweep {
    pub source: PriceSource,
    pub tickers: Vec<String>,
    /// The ticker it is at.
    pub next: usize,
    /// `YYYY-MM-DD`.
    pub today: String,
    /// Whether tickers that have today's close are fetched again.
    pub force: bool,
    /// What went wrong so far.
    pub failed: Vec<String>,
}

/// Asks a provider for the prices of a ticker.
#[derive(Debug, Clone)]
pub struct FetchJob {
    pub source: PriceSource,
    pub ticker: String,
    pub purpose: FetchUse,
}

/// Writes prices to the cache.
#[derive(Debug, Clone)]
pub struct StoreJob {
    pub ticker: String,
    pub snapshot: PriceSnapshot,
    pub purpose: FetchUse,
}

/// Appends a line to the ledger. A sell has negative shares.
#[derive(Debug, Clone)]
pub struct Trade {
    pub ticker: String,
    pub shares: Number,
    pub price: Number,
}

/// A [`Sweep`] with its texts as sequences.
pub struct SweepView {
    pub source: PriceSourceView,
    pub tickers: Seq<Seq<char>>,
    pub next: nat,
    pub today: Seq<char>,
    pub force: bool,
    pub failed: Seq<Seq<char>>,
}

impl View for Sweep {
    type V = SweepView;

    open spec fn view(&self) -> SweepView {
        SweepView {
            source: self.source@,
            tickers: views(self.tickers@),
            next: self.next as nat,
            today: self.today@,
            force: self.force,
            failed: views(self.failed@),
        }
    }
}

/// Whether the request ends with this response.
pub open spec fn replies(next: Action, response: ResponseView) -> bool {
    next matches Action::Reply(r) && r@ == response
}

/// Whether the request ends with this error.
pub open spec fn refuses(next: Action, message: Seq<char>) -> bool {
    replies(next, ResponseView::Error { message })
}

/// Whether the configuration is read to report on it.
pub open spec fn reports_status(next: Action) -> bool {
    next matches Action::ReadConfig(ConfigQuery::Status)
}

/// Whether the ticker is looked up in the price cache for this.
pub open spec fn reads_price(next: Action, ticker: Seq<char>, purpose: PriceUse) -> bool {
    next matches Action::ReadPrice(q) && q.ticker@ == ticker && q.purpose == purpose
}

/// Whether a provider is looked for to fetch the ticker.
pub open spec fn seeks_provider(next: Action, ticker: Seq<char>, purpose: FetchUse) -> bool {
    next matches Action::ReadConfig(ConfigQuery::Fetch { ticker: t, purpose: p }) && t@ == ticker
        && p == purpose
}

/// Whether this line goes to the ledger.
pub open spec fn inserts(next: Action, ticker: Seq<char>, shares: Number, price: Number) -> bool {
    next matches Action::InsertTrade(t) && t.ticker@ == ticker && t.shares == shares && t.price
        == price
}

/// Whether the ledger is read to see if that much is held.
pub open spec fn checks_holding(next: Action, ticker: Seq<char>, shares: Number) -> bool {
    next matches Action::ReadLedger(q) && q.ticker is None && (
    q.purpose matches LedgerUse::Sell { ticker: t, shares: s } && t@ == ticker && s == shares)
}

/// What a request leads to first.
pub open spec fn dispatched(req: RequestView, next: Action) -> bool {
    match req {
        RequestView::Ping => replies(next, ResponseView::Pong),
        RequestView::Summary => next matches Action::ReadLedger(q) && q.ticker is None && q.purpose
            == (LedgerUse::Report { whole: true }),
        RequestView::Holdings => next matches Action::ReadLedger(q) && q.ticker is None
            && q.purpose == (LedgerUse::Report { whole: false }),
        RequestView::History { ticker } => match ticker_problem(uppercase(ticker)) {
            Some(message) => refuses(next, message),
            None => reads_price(next, uppercase(ticker), PriceUse::Check),
        },
        RequestView::Transactions { ticker } => match ticker {
            None => next matches Action::ReadLedger(q) && q.ticker is None && q.purpose
                == LedgerUse::List,
            Some(t) => match ticker_problem(uppercase(t)) {
                Some(message) => refuses(next, message),
                None => next matches Action::ReadLedger(q) && optional_text(q.ticker) == Some(
                    uppercase(t),
                ) && q.purpose == LedgerUse::List,
            },
        },
        RequestView::Buy { ticker, shares, price } => {
            if let Some(message) = ticker_problem(uppercase(ticker)) {
                refuses(next, message)
            } else if let Some(message) = amount_problem("shares"@, shares) {
                refuses(next, message)
            } else if price is Some && amount_problem("price"@, price->0) is Some {
                refuses(next, amount_problem("price"@, price->0)->0)
            } else {
                reads_price(next, uppercase(ticker), PriceUse::Buy(Order { shares, price }))
            }
        },
        RequestView::Sell { ticker, shares } => {
            if let Some(message) = ticker_problem(uppercase(ticker)) {
                refuses(next, message)
            } else if let Some(message) = amount_problem("shares"@, shares) {
                refuses(next, message)
            } else {
                checks_holding(next, uppercase(ticker), shares)
            }
        },
        RequestView::Refresh { force } => next matches Action::ReadConfig(
            ConfigQuery::Refresh { force: f },
        ) && f == force,
        RequestView::RefreshTicker { ticker } => match ticker_problem(uppercase(ticker)) {
            Some(message) => refuses(next, message),
            None => seeks_provider(next, uppercase(ticker), FetchUse::Refresh),
        },
        RequestView::ProviderStatus => reports_status(next),
        RequestView::SetProvider { provider, api_key } => match entry(provider) {
            None => refuses(next, "unknown provider "@ + quote(provider)),
            Some(info) => if info.requires_key && !has_key(api_key) {
                refuses(next, info.label + " requires an API key"@)
            } else {
                next matches Action::SaveConfig(save) && save.config@ == (ConfigView {
                    provider: Some(info.id),
                    api_key: if info.requires_key {
                        api_key
                    } else {
                        None
                    },
                })
            },
        },
        RequestView::ClearProvider => next is ClearConfig,
    }
}

impl Order {
    /// Whether the shares are positive, and the price too if there is one.
    pub open spec fn sound(self) -> bool {
        positive(self.shares) && (self.price is Some ==> positive(self.price->0))
    }
}

impl FetchUse {
    /// Whether what follows keeps to the rules.
    pub open spec fn sound(self) -> bool {
        self matches FetchUse::Buy(order) ==> order.sound()
    }

    /// Whether this is part of a sweep.
    pub open spec fn sweeping(self) -> bool {
        self is Sweep
    }
}

impl ConfigQuery {
    /// Whether the ticker to fetch, if any, was validated.
    pub open spec fn sound(self) -> bool {
        self matches ConfigQuery::Fetch { ticker, purpose } ==> purpose.sound() && (
        !purpose.sweeping() ==> valid_ticker(ticker@))
    }
}

impl Action {
    /// Whether the rules are kept: a ticker that a client named was validated
    /// before it goes anywhere, and what goes to the ledger is a finite number
    /// of shares that is not zero.
    pub open spec fn sound(self) -> bool {
        match self {
            Action::ReadConfig(q) => q.sound(),
            Action::ReloadConfig(q) => q.sound(),
            Action::ReadLedger(q) => {
                &&& q.ticker is Some ==> valid_ticker(q.ticker->0@)
                &&& q.purpose matches LedgerUse::Sell { ticker, shares } ==> valid_ticker(ticker@)
                    && positive(shares)
                &&& q.purpose matches LedgerUse::Chart { ticker, .. } ==> valid_ticker(ticker@)
            },
            Action::ReadPrice(q) => match q.purpose {
                PriceUse::Check => valid_ticker(q.ticker@),
                PriceUse::Chart => valid_ticker(q.ticker@),
                PriceUse::Buy(order) => valid_ticker(q.ticker@) && order.sound(),
                PriceUse::Sell { shares } => valid_ticker(q.ticker@) && positive(shares),
                PriceUse::Quote(_) => true,
            },
            Action::Fetch(f) => f.purpose.sound() && (!f.purpose.sweeping() ==> valid_ticker(
                f.ticker@,
            )),
            Action::StorePrice(s) => s.purpose.sound() && (!s.purpose.sweeping() ==> valid_ticker(
                s.ticker@,
            )),
            Action::InsertTrade(t) => valid_ticker(t.ticker@) && t.shares.finite()
                && t.shares.place() != 0,
            _ => true,
        }
    }
}

fn refuse(message: String) -> (next: Action)
    ensures
        refuses(next, message@),
{
    Action::Reply(refusal(message))
}

fn listing(ticker: Option<String>) -> (next: Action)
    ensures
        match ticker {
            None => next matches Action::ReadLedger(q) && q.ticker is None && q.purpose
                == LedgerUse::List,
            Some(t) => match ticker_problem(uppercase(t@)) {
                Some(message) => refuses(next, message),
                None => next matches Action::ReadLedger(q) && optional_text(q.ticker) == Some(
                    uppercase(t@),
                ) && q.purpose == LedgerUse::List,
            },
        },
        next.sound(),
{
    match ticker {
        None => Action::ReadLedger(LedgerQuery { ticker: None, purpose: LedgerUse::List }),
        Some(t) => {
            let upper = t.as_str().to_uppercase();
            match validate_ticker(upper.as_str()) {
                Err(message) => refuse(message),
                Ok(_) => Action::ReadLedger(
                    LedgerQuery { ticker: Some(upper), purpose: LedgerUse::List },
                ),
            }
        },
    }
}

fn buying(ticker: &str, shares: Number, price: Option<Number>) -> (next: Action)
    ensures
        dispatched(RequestView::Buy { ticker: ticker@, shares, price }, next),
        next.sound(),
{
    let upper = ticker.to_uppercase();
    match validate_ticker(upper.as_str()) {
        Err(message) => return refuse(message),
        Ok(_) => {},
    }
    match validate_shares(shares) {
        Err(message) => return refuse(message),
        Ok(_) => {},
    }
    match price {
        Some(p) => match validate_price_override(p) {
            Err(message) => return refuse(message),
            Ok(_) => {},
        },
        None => {},
    }
    Action::ReadPrice(PriceQuery { ticker: upper, purpose: PriceUse::Buy(Order { shares, price }) })
}

fn selling(ticker: &str, shares: Number) -> (next: Action)
    ensures
        dispatched(RequestView::Sell { ticker: ticker@, shares }, next),
        next.sound(),
{
    let upper = ticker.to_uppercase();
    match validate_ticker(upper.as_str()) {
        Err(message) => return refuse(message),
        Ok(_) => {},
    }
    match validate_shares(shares) {
        Err(message) => return refuse(message),
        Ok(_) => {},
    }
    Action::ReadLedger(
        LedgerQuery { ticker: None, purpose: LedgerUse::Sell { ticker: upper, shares } },
    )
}

fn selecting(provider: &str, api_key: Option<SecretString>) -> (next: Action)
    ensures
        dispatched(
            RequestView::SetProvider { provider: provider@, api_key: optional_secret(api_key) },
            next,
        ),
        next.sound(),
{
    let info = match lookup(provider) {
        Some(info) => info,
        None => return refuse("unknown provider ".to_owned().concat(quoted(provider).as_str())),
    };
    let present = match &api_key {
        Some(k) => !k.is_empty(),
        None => false,
    };
    if info.requires_key && !present {
        return refuse(info.label.concat(" requires an API key"));
    }
    let kept = if info.requires_key {
        api_key
    } else {
        None
    };
    Action::SaveConfig(ConfigSave { config: Config { provider: Some(info.id), api_key: kept } })
}

/// The first step for a request.
pub fn dispatch(req: Request) -> (next: Action)
    ensures
        dispatched(req@, next),
        next.sound(),
{
    match req {
        Request::Ping => Action::Reply(Response::Pong),
        Request::Summary => Action::ReadLedger(
            LedgerQuery { ticker: None, purpose: LedgerUse::Report { whole: true } },
        ),
        Request::Holdings => Action::ReadLedger(
            LedgerQuery { ticker: None, purpose: LedgerUse::Report { whole: false } },
        ),
        Request::History { ticker } => {
            let upper = ticker.as_str().to_uppercase();
            match validate_ticker(upper.as_str()) {
                Err(message) => refuse(message),
                Ok(_) => Action::ReadPrice(PriceQuery { ticker: upper, purpose: PriceUse::Check }),
            }
        },
        Request::Transactions { ticker } => listing(ticker),
        Request::Buy { ticker, shares, price } => buying(ticker.as_str(), shares, price),
        Request::Sell { ticker, shares } => selling(ticker.as_str(), shares),
        Request::Refresh { force } => Action::ReadConfig(ConfigQuery::Refresh { force }),
        Request::RefreshTicker { ticker } => {
            let upper = ticker.as_str().to_uppercase();
            match validate_ticker(upper.as_str()) {
                Err(message) => refuse(message),
                Ok(_) => Action::ReadConfig(
                    ConfigQuery::Fetch { ticker: upper, purpose: FetchUse::Refresh },
                ),
            }
        },
        Request::ProviderStatus => Action::ReadConfig(ConfigQuery::Status),
        Request::SetProvider { provider, api_key } => selecting(provider.as_str(), api_key),
        Request::ClearProvider => Action::ClearConfig(ConfigClear {  }),
    }
}

/// Whether the provider that the configuration selects is asked for the ticker,
/// or the request refused where there is none.
pub open spec fn fetches(c: ConfigView, ticker: String, purpose: FetchUse, next: Action) -> bool {
    match current_source(c) {
        Err(message) => refuses(next, message),
        Ok(source) => next matches Action::Fetch(f) && f.source@ == source && f.ticker == ticker
            && f.purpose == purpose,
    }
}

impl ConfigQuery {
    /// What follows once the configuration is read.
    pub open spec fn answered(self, c: ConfigView, next: Action) -> bool {
        match self {
            ConfigQuery::Status => replies(next, ResponseView::ProviderStatus(status_of(c))),
            ConfigQuery::Fetch { ticker, purpose } => fetches(c, ticker, purpose, next),
            ConfigQuery::Refresh { force } => match current_source(c) {
                Err(message) => refuses(next, message),
                Ok(source) => next matches Action::ReadHeld(h) && h.source@ == source && h.force
                    == force,
            },
        }
    }

    /// Goes on from the configuration in force.
    pub fn answer(self, providers: &Providers) -> (next: Action)
        ensures
            self.answered(providers.config@, next),
            self.sound() ==> next.sound(),
    {
        match self {
            ConfigQuery::Status => Action::Reply(Response::ProviderStatus(provider_status(providers.config()))),
            ConfigQuery::Fetch { ticker, purpose } => match providers.current() {
                Err(message) => refuse(message),
                Ok(source) => Action::Fetch(FetchJob { source, ticker, purpose }),
            },
            ConfigQuery::Refresh { force } => match providers.current() {
                Err(message) => refuse(message),
                Ok(source) => Action::ReadHeld(HeldQuery { source, force }),
            },
        }
    }
}

impl ConfigSave {
    /// What follows once the configuration is stored, or could not be.
    pub open spec fn answered(self, saved: Result<(), String>, next: Action) -> bool {
        match saved {
            Ok(_) => next == Action::ReloadConfig(ConfigQuery::Status),
            Err(e) => refuses(next, "saving credentials: "@ + e@),
        }
    }

    /// Goes on once the configuration is stored, or could not be.
    pub fn answer(self, saved: Result<(), String>) -> (next: Action)
        ensures
            self.answered(saved, next),
            next.sound(),
    {
        match saved {
            Ok(_) => Action::ReloadConfig(ConfigQuery::Status),
            Err(e) => refuse("saving credentials: ".to_owned().concat(e.as_str())),
        }
    }
}

impl ConfigClear {
    /// What follows once the stored configuration is erased, or could not be.
    pub open spec fn answered(self, cleared: Result<(), String>, next: Action) -> bool {
        match cleared {
            Ok(_) => next == Action::ReloadConfig(ConfigQuery::Status),
            Err(e) => refuses(next, "clearing credentials: "@ + e@),
        }
    }

    /// Goes on once the stored configuration is erased, or could not be.
    pub fn answer(self, cleared: Result<(), String>) -> (next: Action)
        ensures
            self.answered(cleared, next),
            next.sound(),
    {
        match cleared {
            Ok(_) => Action::ReloadConfig(ConfigQuery::Status),
            Err(e) => refuse("clearing credentials: ".to_owned().concat(e.as_str())),
        }
    }
}

/// Whether the next holding without a price is looked up, or the report is
/// finished where there is none.
pub open spec fn quotes_on(
    whole: bool,
    held: Seq<Holding>,
    quotes: Seq<Quoted>,
    next: Action,
) -> bool {
    if quotes.len() < held.len() {
        next matches Action::ReadPrice(q) && q.ticker@ == held[quotes.len() as int].ticker@ && (
        q.purpose matches PriceUse::Quote(r) && r.whole == whole && r.held@ == held && r.quoted@
            == quotes)
    } else {
        next matches Action::ReadRefreshDay(r) && r.whole == whole && r.held@ == held && r.quoted@
            == quotes
    }
}

/// What is quoted for a holding from the cache.
pub open spec fn quote_from(found: Option<PriceSnapshot>) -> Option<Quote> {
    match found {
        Some(s) => Some(Quote { price: s.current_price, fetched_on: s.fetched_on }),
        None => None,
    }
}

impl Report {
    /// Whether the quotes are those of the first holdings.
    pub open spec fn aligned(self) -> bool {
        &&& self.quoted@.len() <= self.held@.len()
        &&& forall|i: int|
            0 <= i < self.quoted@.len() ==> (#[trigger] self.quoted@[i]).ticker
                == self.held@[i].ticker && self.quoted@[i].position == self.held@[i].position
    }

    /// The quotes with that of the next holding.
    pub open spec fn with_quote(self, found: Option<PriceSnapshot>) -> Seq<Quoted> {
        let k = self.quoted@.len() as int;
        if k < self.held@.len() {
            self.quoted@.push(
                Quoted {
                    ticker: self.held@[k].ticker,
                    position: self.held@[k].position,
                    quote: quote_from(found),
                },
            )
        } else {
            self.quoted@
        }
    }

    fn go_on(self) -> (next: Action)
        ensures
            quotes_on(self.whole, self.held@, self.quoted@, next),
            next.sound(),
            next matches Action::ReadPrice(PriceQuery { purpose: PriceUse::Quote(r), .. })
                ==> r == self,
            next matches Action::ReadRefreshDay(r) ==> r == self,
    {
        let k: usize = self.quoted.len();
        if k < self.held.len() {
            let ticker = self.held[k].ticker.clone();
            Action::ReadPrice(PriceQuery { ticker, purpose: PriceUse::Quote(self) })
        } else {
            Action::ReadRefreshDay(self)
        }
    }

    fn quote_next(self, found: Option<PriceSnapshot>) -> (next: Action)
        ensures
            quotes_on(self.whole, self.held@, self.with_quote(found), next),
            next.sound(),
    {
        let mut r = self;
        let k: usize = r.quoted.len();
        if k < r.held.len() {
            let quote = match found {
                Some(s) => Some(Quote { price: s.current_price, fetched_on: s.fetched_on }),
                None => None,
            };
            let ticker = r.held[k].ticker.clone();
            let position = r.held[k].position;
            r.quoted.push(Quoted { ticker, position, quote });
        }
        assert(r.quoted@ == self.with_quote(found));
        r.go_on()
    }

    /// What follows once it is known on what day anything was last refreshed.
    pub open spec fn answered<N: Numerics>(
        self,
        num: &N,
        day: Result<Option<String>, String>,
        next: Action,
    ) -> bool {
        match day {
            Err(e) => refuses(next, e@),
            Ok(day) => exists|s: PortfolioSummary|
                {
                    &&& #[trigger] summed_up(num, self.quoted@, s)
                    &&& s.last_refresh == day
                    &&& replies(
                        next,
                        if self.whole {
                            ResponseView::Summary(s)
                        } else {
                            ResponseView::Holdings { rows: s.rows@ }
                        },
                    )
                },
        }
    }

    /// Finishes the report, given on what day anything was last refreshed.
    pub fn answer<N: Numerics>(self, num: &N, day: Result<Option<String>, String>) -> (next: Action)
        ensures
            self.answered(num, day, next),
            next.sound(),
    {
        match day {
            Err(e) => refuse(e),
            Ok(day) => {
                let s = summary(num, &self.quoted, day);
                assert(summed_up(num, self.quoted@, s));
                if self.whole {
                    Action::Reply(Response::Summary(s))
                } else {
                    Action::Reply(Response::Holdings { rows: s.rows })
                }
            },
        }
    }
}

/// The shares held of a ticker; zero where it is not held.
pub open spec fn shares_held(held: Seq<Holding>, ticker: Seq<char>) -> Number
    decreases held.len(),
{
    if held.len() == 0 {
        zero()
    } else if held[0].ticker@ == ticker {
        held[0].position.shares
    } else {
        shares_held(held.drop_first(), ticker)
    }
}

fn find_shares(held: &Vec<Holding>, ticker: &str) -> (shares: Number)
    ensures
        shares == shares_held(held@, ticker@),
{
    let mut i: usize = 0;
    assert(held@.skip(0) =~= held@);
    while i < held.len()
        invariant
            i <= held@.len(),
            shares_held(held@.skip(i as int), ticker@) == shares_held(held@, ticker@),
        decreases held@.len() - i,
    {
        if same(held[i].ticker.as_str(), ticker) {
            return held[i].position.shares;
        }
        assert(held@.skip(i as int).drop_first() =~= held@.skip(i + 1));
        i = i + 1;
    }
    Number::zero()
}

/// `next` is an outcome of checking a sale against the ledger: refused where
/// more is sold than is held and a dust's worth, else the price is looked up.
pub open spec fn sale_checked<N: Numerics>(
    num: &N,
    ledger: Seq<TransactionRow>,
    ticker: Seq<char>,
    shares: Number,
    next: Action,
) -> bool {
    exists|held: Seq<Holding>, limit: Number|
        {
            &&& #[trigger] reduced(num, ledger, held)
            &&& #[trigger] sum(num, shares_held(held, ticker), dust(), limit)
            &&& if shares.above(limit) {
                exists|amount: Seq<char>| #[trigger]
                    shown_as(num, shares_held(held, ticker), amount) && refuses(
                        next,
                        "only holding "@ + amount + " of "@ + ticker,
                    )
            } else {
                reads_price(next, ticker, PriceUse::Sell { shares })
            }
        }
}

fn check_sale<N: Numerics>(
    num: &N,
    ledger: &Vec<TransactionRow>,
    ticker: String,
    shares: Number,
) -> (next: Action)
    ensures
        sale_checked(num, ledger@, ticker@, shares, next),
        valid_ticker(ticker@) && positive(shares) ==> next.sound(),
{
    let held = positions(num, ledger);
    let amount = find_shares(&held, ticker.as_str());
    let limit = num.plus(amount, Number::from_bits(DUST_BITS));
    assert(reduced(num, ledger@, held@));
    assert(sum(num, shares_held(held@, ticker@), dust(), limit));
    if shares.exceeds(limit) {
        let text = num.show(amount);
        assert(shown_as(num, amount, text@));
        let mut message = "only holding ".to_owned();
        message.append(text.as_str());
        message.append(" of ");
        message.append(ticker.as_str());
        return refuse(message);
    }
    Action::ReadPrice(PriceQuery { ticker, purpose: PriceUse::Sell { shares } })
}

impl LedgerQuery {
    /// What follows once the ledger is read.
    pub open spec fn answered<N: Numerics>(
        self,
        num: &N,
        rows: Result<Vec<TransactionRow>, String>,
        next: Action,
    ) -> bool {
        match rows {
            Err(e) => refuses(next, e@),
            Ok(rows) => match self.purpose {
                LedgerUse::List => replies(next, ResponseView::Transactions { rows: rows@ }),
                LedgerUse::Report { whole } => exists|held: Seq<Holding>| #[trigger]
                    reduced(num, rows@, held) && quotes_on(whole, held, seq![], next),
                LedgerUse::Sell { ticker, shares } => sale_checked(
                    num,
                    rows@,
                    ticker@,
                    shares,
                    next,
                ),
                LedgerUse::Chart { ticker, snapshot } => exists|h: TickerHistory| #[trigger]
                    charted(num, ticker@, snapshot, rows@, h) && replies(
                        next,
                        ResponseView::History(h),
                    ),
            },
        }
    }

    /// Goes on from the ledger.
    pub fn answer<N: Numerics>(self, num: &N, rows: Result<Vec<TransactionRow>, String>) -> (next:
        Action)
        ensures
            self.answered(num, rows, next),
            Action::ReadLedger(self).sound() ==> next.sound(),
    {
        let rows = match rows {
            Err(e) => return refuse(e),
            Ok(rows) => rows,
        };
        match self.purpose {
            LedgerUse::List => Action::Reply(Response::Transactions { rows }),
            LedgerUse::Report { whole } => {
                let held = positions(num, &rows);
                assert(reduced(num, rows@, held@));
                let report = Report { whole, held, quoted: Vec::new() };
                assert(report.quoted@ =~= seq![]);
                report.go_on()
            },
            LedgerUse::Sell { ticker, shares } => check_sale(num, &rows, ticker, shares),
            LedgerUse::Chart { ticker, snapshot } => match history(
                num,
                ticker.as_str(),
                Some(snapshot),
                &rows,
            ) {
                Some(h) => {
                    assert(charted(num, ticker@, snapshot, rows@, h));
                    Action::Reply(Response::History(h))
                },
                None => refuse(no_data(ticker.as_str())),
            },
        }
    }
}

fn no_data(ticker: &str) -> (message: String)
    ensures
        message@ == "no data for "@ + ticker@,
{
    "no data for ".to_owned().concat(ticker)
}

/// The price of a purchase: the one that was asked for, else the latest close.
pub open spec fn purchase_price(order: Order, close: Number) -> Number {
    match order.price {
        Some(p) => p,
        None => close,
    }
}

fn purchase(ticker: String, order: Order, close: Number) -> (next: Action)
    ensures
        inserts(next, ticker@, order.shares, purchase_price(order, close)),
        valid_ticker(ticker@) && order.sound() ==> next.sound(),
{
    let price = match order.price {
        Some(p) => p,
        None => close,
    };
    Action::InsertTrade(Trade { ticker, shares: order.shares, price })
}

impl PriceQuery {
    /// What follows once the cached prices are read.
    pub open spec fn answered(
        self,
        found: Result<Option<PriceSnapshot>, String>,
        next: Action,
    ) -> bool {
        match self.purpose {
            PriceUse::Check => match found {
                Ok(Some(_)) => reads_price(next, self.ticker@, PriceUse::Chart),
                _ => seeks_provider(next, self.ticker@, FetchUse::Chart),
            },
            PriceUse::Chart => match found {
                Ok(Some(s)) => next matches Action::ReadLedger(q) && q.ticker is None && q.purpose
                    == (LedgerUse::Chart { ticker: self.ticker, snapshot: s }),
                Ok(None) => refuses(next, "no data for "@ + self.ticker@),
                Err(e) => refuses(next, e@),
            },
            PriceUse::Buy(order) => match found {
                Ok(Some(s)) => inserts(
                    next,
                    self.ticker@,
                    order.shares,
                    purchase_price(order, s.current_price),
                ),
                _ => seeks_provider(next, self.ticker@, FetchUse::Buy(order)),
            },
            PriceUse::Sell { shares } => match found {
                Ok(Some(s)) => inserts(next, self.ticker@, shares.opposite(), s.current_price),
                Ok(None) => refuses(
                    next,
                    "no cached price for "@ + self.ticker@
                        + " — run `tickerctl refresh` and retry"@,
                ),
                Err(e) => refuses(next, e@),
            },
            PriceUse::Quote(report) => match found {
                Ok(found) => quotes_on(
                    report.whole,
                    report.held@,
                    report.with_quote(found),
                    next,
                ),
                Err(e) => refuses(next, e@),
            },
        }
    }

    /// Goes on from the cached prices, if there are any.
    pub fn answer(self, found: Result<Option<PriceSnapshot>, String>) -> (next: Action)
        ensures
            self.answered(found, next),
            Action::ReadPrice(self).sound() ==> next.sound(),
    {
        let ticker = self.ticker;
        match self.purpose {
            PriceUse::Check => match found {
                Ok(Some(_)) => Action::ReadPrice(PriceQuery { ticker, purpose: PriceUse::Chart }),
                _ => Action::ReadConfig(ConfigQuery::Fetch { ticker, purpose: FetchUse::Chart }),
            },
            PriceUse::Chart => match found {
                Ok(Some(snapshot)) => Action::ReadLedger(
                    LedgerQuery { ticker: None, purpose: LedgerUse::Chart { ticker, snapshot } },
                ),
                Ok(None) => refuse(no_data(ticker.as_str())),
                Err(e) => refuse(e),
            },
            PriceUse::Buy(order) => match found {
                Ok(Some(s)) => purchase(ticker, order, s.current_price),
                _ => Action::ReadConfig(
                    ConfigQuery::Fetch { ticker, purpose: FetchUse::Buy(order) },
                ),
            },
            PriceUse::Sell { shares } => match found {
                Ok(Some(s)) => Action::InsertTrade(
                    Trade { ticker, shares: shares.negated(), price: s.current_price },
                ),
                Ok(None) => {
                    let mut message = "no cached price for ".to_owned();
                    message.append(ticker.as_str());
                    message.append(" — run `tickerctl refresh` and retry");
                    refuse(message)
                },
                Err(e) => refuse(e),
            },
            PriceUse::Quote(report) => match found {
                Ok(found) => report.quote_next(found),
                Err(e) => refuse(e),
            },
        }
    }
}

impl Trade {
    /// What follows once the line is in the ledger, or could not be written.
    pub open spec fn answered(self, inserted: Result<(), String>, next: Action) -> bool {
        match inserted {
            Ok(_) => replies(next, ResponseView::Done),
            Err(e) => refuses(next, e@),
        }
    }

    /// Goes on once the line is in the ledger, or could not be written.
    pub fn answer(self, inserted: Result<(), String>) -> (next: Action)
        ensures
            self.answered(inserted, next),
            next.sound(),
    {
        match inserted {
            Ok(_) => Action::Reply(Response::Done),
            Err(e) => refuse(e),
        }
    }
}

impl SweepView {
    /// Whether every ticker has been visited.
    pub open spec fn finished(self) -> bool {
        self.next >= self.tickers.len()
    }

    /// The ticker the sweep is at.
    pub open spec fn ticker(self) -> Seq<char> {
        self.tickers[self.next as int]
    }

    /// The sweep at the next ticker; `trouble` is what went wrong with this
    /// one, if anything.
    pub open spec fn stepped(self, trouble: Option<Seq<char>>) -> SweepView {
        SweepView {
            next: self.next + 1,
            failed: match trouble {
                Some(e) => self.failed.push(self.ticker() + ": "@ + e),
                None => self.failed,
            },
            ..self
        }
    }

    /// What a sweep that has visited every ticker answers.
    pub open spec fn outcome(self) -> ResponseView {
        if self.failed.len() == 0 {
            ResponseView::Done
        } else {
            ResponseView::Error { message: join(self.failed, "; "@) }
        }
    }
}

/// Whether a fetch for the ticker that the sweep is at comes next.
pub open spec fn fetches_for_sweep(s: SweepView, next: Action) -> bool {
    next matches Action::Fetch(f) && f.source@ == s.source && f.ticker@ == s.ticker() && (
    f.purpose matches FetchUse::Sweep(sweep) && sweep@ == s)
}

/// What a sweep does next: ends, fetches if it fetches all, else looks on what
/// day the ticker was fetched.
pub open spec fn sweeps_on(s: SweepView, next: Action) -> bool {
    if s.finished() {
        replies(next, s.outcome())
    } else if s.force {
        fetches_for_sweep(s, next)
    } else {
        next matches Action::ReadUpdated(sweep) && sweep@ == s
    }
}

/// A sweep that has visited nothing yet.
pub open spec fn new_sweep(
    source: PriceSourceView,
    tickers: Seq<Seq<char>>,
    today: Seq<char>,
    force: bool,
) -> SweepView {
    SweepView { source, tickers, next: 0, today, force, failed: seq![] }
}

impl HeldQuery {
    /// What follows once it is known which tickers are held.
    pub open spec fn answered(
        self,
        held: Result<Vec<String>, String>,
        today: Seq<char>,
        next: Action,
    ) -> bool {
        match held {
            Err(e) => refuses(next, e@),
            Ok(tickers) => sweeps_on(
                new_sweep(self.source@, views(tickers@), today, self.force),
                next,
            ),
        }
    }

    /// Starts the sweep over the held tickers.
    pub fn answer(self, held: Result<Vec<String>, String>, today: String) -> (next: Action)
        ensures
            self.answered(held, today@, next),
            next.sound(),
    {
        match held {
            Err(e) => refuse(e),
            Ok(tickers) => Sweep::start(self.source, tickers, today, self.force),
        }
    }
}

impl Sweep {
    fn start(source: PriceSource, tickers: Vec<String>, today: String, force: bool) -> (next: Action)
        ensures
            sweeps_on(new_sweep(source@, views(tickers@), today@, force), next),
            next.sound(),
    {
        let sweep = Sweep { source, tickers, next: 0, today, force, failed: Vec::new() };
        assert(sweep@.failed =~= seq![]);
        sweep.go_on()
    }

    fn fetch(self) -> (next: Action)
        requires
            !self@.finished(),
        ensures
            fetches_for_sweep(self@, next),
            next.sound(),
    {
        let source = self.source.duplicate();
        let ticker = self.tickers[self.next].clone();
        assert(views(self.tickers@)[self.next as int] == ticker@);
        Action::Fetch(FetchJob { source, ticker, purpose: FetchUse::Sweep(self) })
    }

    fn go_on(self) -> (next: Action)
        ensures
            sweeps_on(self@, next),
            next.sound(),
    {
        assert(views(self.tickers@).len() == self.tickers@.len());
        if self.next >= self.tickers.len() {
            assert(views(self.failed@).len() == self.failed@.len());
            if self.failed.len() == 0 {
                Action::Reply(Response::Done)
            } else {
                refuse(joined(&self.failed, "; "))
            }
        } else if self.force {
            self.fetch()
        } else {
            Action::ReadUpdated(self)
        }
    }

    fn step(self, trouble: Option<String>) -> (next: Action)
        ensures
            if self@.finished() {
                sweeps_on(self@, next)
            } else {
                sweeps_on(self@.stepped(optional_text(trouble)), next)
            },
            next.sound(),
    {
        assert(views(self.tickers@).len() == self.tickers@.len());
        if self.next >= self.tickers.len() {
            return self.go_on();
        }
        let mut s = self;
        match trouble {
            Some(e) => {
                let mut message = s.tickers[s.next].clone();
                message.append(": ");
                message.append(e.as_str());
                assert(views(self.tickers@)[self.next as int] == self.tickers@[self.next as int]@);
                s.failed.push(message);
                assert(views(s.failed@) =~= self@.stepped(optional_text(trouble)).failed);
            },
            None => {},
        }
        s.next = s.next + 1;
        s.go_on()
    }

    /// What follows once it is known on what day the ticker was last fetched:
    /// one that has today's close is passed over.
    pub open spec fn answered(self, updated: Option<Seq<char>>, next: Action) -> bool {
        if self@.finished() {
            sweeps_on(self@, next)
        } else if !self@.force && updated == Some(self@.today) {
            sweeps_on(self@.stepped(None), next)
        } else {
            fetches_for_sweep(self@, next)
        }
    }

    /// Goes on from the day on which the ticker was last fetched.
    pub fn answer(self, updated: Option<String>) -> (next: Action)
        ensures
            self.answered(optional_text(updated), next),
            next.sound(),
    {
        assert(views(self.tickers@).len() == self.tickers@.len());
        if self.next >= self.tickers.len() {
            return self.go_on();
        }
        let is_current = match &updated {
            Some(day) => same(day.as_str(), self.today.as_str()),
            None => false,
        };
        if !self.force && is_current {
            self.step(None)
        } else {
            self.fetch()
        }
    }
}

/// Whether a sweep that had this trouble with a ticker, or none, goes on.
pub open spec fn sweep_took(sweep: Sweep, trouble: Option<Seq<char>>, next: Action) -> bool {
    if sweep@.finished() {
        sweeps_on(sweep@, next)
    } else {
        sweeps_on(sweep@.stepped(trouble), next)
    }
}

impl FetchJob {
    /// What follows once the provider has answered.
    pub open spec fn answered(self, fetched: Result<PriceSnapshot, String>, next: Action) -> bool {
        match fetched {
            Ok(s) => next == Action::StorePrice(
                StoreJob { ticker: self.ticker, snapshot: s, purpose: self.purpose },
            ),
            Err(e) => match self.purpose {
                FetchUse::Sweep(sweep) => sweep_took(sweep, Some(e@), next),
                _ => refuses(next, e@),
            },
        }
    }

    /// Goes on from the provider's answer.
    pub fn answer(self, fetched: Result<PriceSnapshot, String>) -> (next: Action)
        ensures
            self.answered(fetched, next),
            Action::Fetch(self).sound() ==> next.sound(),
    {
        match fetched {
            Ok(snapshot) => Action::StorePrice(
                StoreJob { ticker: self.ticker, snapshot, purpose: self.purpose },
            ),
            Err(e) => match self.purpose {
                FetchUse::Sweep(sweep) => sweep.step(Some(e)),
                _ => refuse(e),
            },
        }
    }
}

impl StoreJob {
    /// What follows once the prices are cached, or could not be.
    pub open spec fn answered(self, stored: Result<(), String>, next: Action) -> bool {
        match self.purpose {
            FetchUse::Sweep(sweep) => sweep_took(
                sweep,
                match stored {
                    Ok(_) => None,
                    Err(e) => Some(e@),
                },
                next,
            ),
            purpose => match stored {
                Err(e) => refuses(next, "db: "@ + e@),
                Ok(_) => match purpose {
                    FetchUse::Chart => reads_price(next, self.ticker@, PriceUse::Chart),
                    FetchUse::Buy(order) => inserts(
                        next,
                        self.ticker@,
                        order.shares,
                        purchase_price(order, self.snapshot.current_price),
                    ),
                    _ => replies(next, ResponseView::Done),
                },
            },
        }
    }

    /// Goes on once the prices are cached, or could not be.
    pub fn answer(self, stored: Result<(), String>) -> (next: Action)
        ensures
            self.answered(stored, next),
            Action::StorePrice(self).sound() ==> next.sound(),
    {
        match self.purpose {
            FetchUse::Sweep(sweep) => match stored {
                Ok(_) => sweep.step(None),
                Err(e) => sweep.step(Some(e)),
            },
            purpose => match stored {
                Err(e) => refuse("db: ".to_owned().concat(e.as_str())),
                Ok(_) => match purpose {
                    FetchUse::Chart => Action::ReadPrice(
                        PriceQuery { ticker: self.ticker, purpose: PriceUse::Chart },
                    ),
                    FetchUse::Buy(order) => purchase(
                        self.ticker,
                        order,
                        self.snapshot.current_price,
                    ),
                    _ => Action::Reply(Response::Done),
                },
            },
        }
    }
}

/// What comes of checking for stale prices.
#[derive(Debug, Clone)]
pub enum StaleCheck {
    /// What is held could not be read.
    Unlisted(String),
    /// There is no provider, and nothing held that would need one.
    Idle,
    /// There is no provider to refresh what is held.
    Skipped(String),
    /// A sweep over what is held.
    Sweep(Action),
}

/// Starts a refresh of the held tickers that don't have today's close. Having
/// no provider is the normal quiet case where nothing is held.
pub fn refresh_stale(
    held: Result<Vec<String>, String>,
    providers: &Providers,
    today: String,
) -> (check: StaleCheck)
    ensures
        match held {
            Err(e) => check == StaleCheck::Unlisted(e),
            Ok(tickers) => match current_source(providers.config@) {
                Err(message) => if tickers@.len() == 0 {
                    check is Idle
                } else {
                    check matches StaleCheck::Skipped(m) && m@ == message
                },
                Ok(source) => check matches StaleCheck::Sweep(next) && sweeps_on(
                    new_sweep(source, views(tickers@), today@, false),
                    next,
                ),
            },
        },
{
    let tickers = match held {
        Err(e) => return StaleCheck::Unlisted(e),
        Ok(tickers) => tickers,
    };
    match providers.current() {
        Err(message) => if tickers.len() == 0 {
            StaleCheck::Idle
        } else {
            StaleCheck::Skipped(message)
        },
        Ok(source) => StaleCheck::Sweep(Sweep::start(source, tickers, today, false)),
    }
}

/// Whether `b` can come after `a`, for some outcome of what `a` asks for.
pub open spec fn follows<N: Numerics>(num: &N, a: Action, b: Action) -> bool {
    match a {
        Action::Reply(_) => false,
        Action::ReadConfig(q) => exists|c: ConfigView| #[trigger] q.answered(c, b),
        Action::ReloadConfig(q) => exists|c: ConfigView| #[trigger] q.answered(c, b),
        Action::SaveConfig(q) => exists|r: Result<(), String>| #[trigger] q.answered(r, b),
        Action::ClearConfig(q) => exists|r: Result<(), String>| #[trigger] q.answered(r, b),
        Action::ReadLedger(q) => exists|r: Result<Vec<TransactionRow>, String>| #[trigger]
            q.answered(num, r, b),
        Action::ReadPrice(q) => exists|r: Result<Option<PriceSnapshot>, String>| #[trigger]
            q.answered(r, b),
        Action::ReadRefreshDay(q) => exists|r: Result<Option<String>, String>| #[trigger]
            q.answered(num, r, b),
        Action::ReadHeld(q) => exists|r: Result<Vec<String>, String>, today: Seq<char>| #[trigger]
            q.answered(r, today, b),
        Action::ReadUpdated(q) => exists|r: Option<Seq<char>>| #[trigger] q.answered(r, b),
        Action::Fetch(q) => exists|r: Result<PriceSnapshot, String>| #[trigger] q.answered(r, b),
        Action::StorePrice(q) => exists|r: Result<(), String>| #[trigger] q.answered(r, b),
        Action::InsertTrade(q) => exists|r: Result<(), String>| #[trigger] q.answered(r, b),
    }
}

/// From a request on, the rules are kept whatever the outcomes are: no ticker
/// that a client named reaches a provider, the cache or the ledger without
/// having been validated, and no line goes to the ledger whose shares are zero
/// or not finite.
pub proof fn rules_are_kept<N: Numerics>(num: &N, req: RequestView, a: Action, b: Action)
    ensures
        dispatched(req, a) ==> a.sound(),
        a.sound() && follows(num, a, b) ==> b.sound(),
{
}

/// How far a request still has to go: stages, and rounds within one.
pub open spec fn distance(a: Action) -> (nat, nat) {
    match a {
        Action::Reply(_) => (0, 0),
        Action::InsertTrade(_) => (1, 0),
        Action::ReadRefreshDay(_) => (1, 0),
        Action::ReadConfig(q) => config_distance(q),
        Action::ReloadConfig(q) => config_distance(q),
        Action::SaveConfig(_) => (2, 0),
        Action::ClearConfig(_) => (2, 0),
        Action::ReadHeld(_) => (2, 0),
        Action::ReadLedger(q) => match q.purpose {
            LedgerUse::List => (1, 0),
            LedgerUse::Chart { .. } => (1, 0),
            LedgerUse::Report { .. } => (3, 0),
            LedgerUse::Sell { .. } => (3, 0),
        },
        Action::ReadPrice(q) => match q.purpose {
            PriceUse::Check => (6, 0),
            PriceUse::Buy(_) => (6, 0),
            PriceUse::Chart => (2, 0),
            PriceUse::Sell { .. } => (2, 0),
            PriceUse::Quote(r) => (
                2,
                if r.quoted@.len() < r.held@.len() {
                    (r.held@.len() - r.quoted@.len()) as nat
                } else {
                    0
                },
            ),
        },
        Action::ReadUpdated(s) => (1, sweep_distance(s@, 2)),
        Action::Fetch(f) => match f.purpose {
            FetchUse::Sweep(s) => (1, sweep_distance(s@, 1)),
            _ => (4, 0),
        },
        Action::StorePrice(j) => match j.purpose {
            FetchUse::Sweep(s) => (1, sweep_distance(s@, 0)),
            _ => (3, 0),
        },
    }
}

/// How far a request that reads the configuration still has to go.
pub open spec fn config_distance(q: ConfigQuery) -> (nat, nat) {
    match q {
        ConfigQuery::Status => (1, 0),
        ConfigQuery::Refresh { .. } => (3, 0),
        ConfigQuery::Fetch { .. } => (5, 0),
    }
}

/// The steps a sweep still takes: three for each ticker from this one on, and
/// what is left of them for this one.
pub open spec fn sweep_distance(s: SweepView, left: nat) -> nat {
    if s.next < s.tickers.len() {
        (3 * (s.tickers.len() - s.next) + left) as nat
    } else {
        left
    }
}

/// Every request is answered: whatever the outcomes are, each step brings it
/// nearer to its response, and the response ends it.
pub proof fn requests_come_to_an_end<N: Numerics>(num: &N, a: Action, b: Action)
    requires
        follows(num, a, b),
    ensures
        a !is Reply,
        distance(b).0 < distance(a).0 || distance(b).0 == distance(a).0 && distance(b).1
            < distance(a).1,
{
}

/// At most one line goes to the ledger for a request: once it is written, or
/// could not be, the response follows.
pub proof fn insertion_ends_a_request<N: Numerics>(num: &N, trade: Trade, b: Action)
    requires
        follows(num, Action::InsertTrade(trade), b),
    ensures
        b is Reply,
{
}

/// A purchase of what is no plausible ticker, or of a number of shares or at a
/// price that is not strictly positive and finite, is refused at once: it
/// reaches neither a provider nor the ledger.
pub proof fn unsound_purchases_are_refused(
    ticker: Seq<char>,
    shares: Number,
    price: Option<Number>,
    next: Action,
)
    requires
        dispatched(RequestView::Buy { ticker, shares, price }, next),
        !valid_ticker(uppercase(ticker)) || !positive(shares) || (price is Some && !positive(
            price->0,
        )),
    ensures
        next matches Action::Reply(r) && r@ is Error,
{
}

/// So is a sale of what is no plausible ticker, or of a number of shares that
/// is not strictly positive and finite.
pub proof fn unsound_sales_are_refused(ticker: Seq<char>, shares: Number, next: Action)
    requires
        dispatched(RequestView::Sell { ticker, shares }, next),
        !valid_ticker(uppercase(ticker)) || !positive(shares),
    ensures
        next matches Action::Reply(r) && r@ is Error,
{
}

/// There is no short selling: a sale goes on only where no more is sold than
/// the ledger leaves of the ticker and a dust's worth.
pub proof fn sales_stay_within_holdings<N: Numerics>(
    num: &N,
    q: LedgerQuery,
    ticker: String,
    shares: Number,
    rows: Vec<TransactionRow>,
    next: Action,
)
    requires
        q.purpose == (LedgerUse::Sell { ticker, shares }),
        q.answered(num, Ok(rows), next),
        next !is Reply,
    ensures
        exists|held: Seq<Holding>, limit: Number| #[trigger]
            reduced(num, rows@, held) && #[trigger] sum(
                num,
                shares_held(held, ticker@),
                dust(),
                limit,
            ) && !shares.above(limit),
{
}

/// A sale without a cached price is refused rather than filled at nothing.
pub proof fn unpriced_sales_are_refused(q: PriceQuery, shares: Number, next: Action)
    requires
        q.purpose == (PriceUse::Sell { shares }),
        q.answered(Ok(None), next),
    ensures
        next matches Action::Reply(r) && r@ is Error,
{
}

/// Nothing is asked of any provider where none is selected.
pub proof fn nothing_is_fetched_unasked(q: ConfigQuery, c: ConfigView, next: Action)
    requires
        c.provider is None,
        q.answered(c, next),
    ensures
        next is Reply,
{
}

/// The ticker that a sweep is at is fetched exactly where the sweep fetches
/// all, or the ticker doesn't have today's close.
pub proof fn sweeps_fetch_what_is_stale(
    sweep: Sweep,
    updated: Option<Seq<char>>,
    asked: Action,
    next: Action,
)
    requires
        !sweep@.finished(),
        sweeps_on(sweep@, asked),
        sweep.answered(updated, next),
    ensures
        asked is Fetch <==> sweep@.force,
        asked is Fetch ==> fetches_for_sweep(sweep@, asked),
        !sweep@.force ==> (fetches_for_sweep(sweep@, next) <==> updated != Some(sweep@.today)),
{
}

/// A sweep after one visit for each of `troubles`.
pub open spec fn swept(s: SweepView, troubles: Seq<Option<Seq<char>>>) -> SweepView
    decreases troubles.len(),
{
    if troubles.len() == 0 {
        s
    } else {
        swept(s, troubles.drop_last()).stepped(troubles.last())
    }
}

/// What a sweep over `tickers` says went wrong.
pub open spec fn complaints(
    tickers: Seq<Seq<char>>,
    troubles: Seq<Option<Seq<char>>>,
) -> Seq<Seq<char>>
    decreases troubles.len(),
{
    if troubles.len() == 0 {
        seq![]
    } else {
        let earlier = complaints(tickers, troubles.drop_last());
        match troubles.last() {
            Some(e) => earlier.push(tickers[troubles.len() - 1] + ": "@ + e),
            None => earlier,
        }
    }
}

/// A sweep visits every ticker once, in order, whatever goes wrong on the way.
/// It succeeds where nothing did; else its response names each ticker that had
/// trouble, and which.
pub proof fn sweeps_visit_every_ticker(
    source: PriceSourceView,
    tickers: Seq<Seq<char>>,
    today: Seq<char>,
    force: bool,
    troubles: Seq<Option<Seq<char>>>,
)
    requires
        troubles.len() <= tickers.len(),
    ensures
        swept(new_sweep(source, tickers, today, force), troubles) == (SweepView {
            source,
            tickers,
            next: troubles.len(),
            today,
            force,
            failed: complaints(tickers, troubles),
        }),
        complaints(tickers, troubles).len() == 0 <==> forall|i: int|
            0 <= i < troubles.len() ==> (#[trigger] troubles[i]) is None,
    decreases troubles.len(),
{
    if troubles.len() > 0 {
        let earlier = troubles.drop_last();
        sweeps_visit_every_ticker(source, tickers, today, force, earlier);
        if complaints(tickers, troubles).len() == 0 {
            assert forall|i: int| 0 <= i < troubles.len() implies (#[trigger] troubles[i]) is None by {
                if i < earlier.len() {
                    assert(earlier[i] == troubles[i]);
                }
            }
        } else if forall|i: int| 0 <= i < troubles.len() ==> (#[trigger] troubles[i]) is None {
            assert(troubles[troubles.len() - 1] is None);
            assert forall|i: int| 0 <= i < earlier.len() implies (#[trigger] earlier[i]) is None by {
                assert(earlier[i] == troubles[i]);
            }
        }
    }
}

/// What a line from a client leads to: nothing where it is blank, an error where
/// it is no request.
pub fn handle(line: &str, parsed: Result<Request, String>) -> (next: Option<Action>)
    ensures
        match next {
            None => trim(line@).len() == 0,
            Some(next) => trim(line@).len() > 0 && next.sound() && match parsed {
                Ok(req) => dispatched(req@, next),
                Err(e) => refuses(next, "bad request: "@ + e@),
            },
        },
{
    if !holds_request(line) {
        return None;
    }
    Some(
        match parsed {
            Ok(req) => dispatch(req),
            Err(e) => Action::Reply(bad_request(e.as_str())),
        },
    )
}

/// A provider that can be chosen is in force once it is stored, as far as the
/// environment does not say otherwise: it is the one selected, and it is ready.
pub proof fn a_chosen_provider_is_ready(
    provider: Seq<char>,
    api_key: Option<Seq<char>>,
    save: ConfigSave,
)
    requires
        dispatched(RequestView::SetProvider { provider, api_key }, Action::SaveConfig(save)),
    ensures
        save.config@.ready(),
        status_of(save.config@).selected == entry(provider),
        status_of(save.config@).unavailable is None,
        current_source(save.config@) is Ok,
{
    crate::provider::lookup_agrees_with_the_catalog(provider);
    crate::sources::ready_means_there_is_a_source(save.config@);
}

/// The ledger is asked for a ticker under the name under which it was bought,
/// however the client wrote it.
pub proof fn filters_use_the_name_that_is_stored(
    ticker: Seq<char>,
    shares: Number,
    price: Option<Number>,
    bought: Action,
    listed: Action,
)
    requires
        dispatched(RequestView::Buy { ticker, shares, price }, bought),
        dispatched(RequestView::Transactions { ticker: Some(ticker) }, listed),
        bought is ReadPrice,
    ensures
        listed is ReadLedger,
        optional_text(listed->ReadLedger_0.ticker) == Some(bought->ReadPrice_0.ticker@),
{
}

/// Whether a request can have come to an action after so many steps, for some
/// outcomes of what was asked for on the way.
pub open spec fn reached<N: Numerics>(num: &N, req: RequestView, a: Action, steps: nat) -> bool
    decreases steps,
{
    if steps == 0 {
        dispatched(req, a)
    } else {
        exists|b: Action| reached(num, req, b, (steps - 1) as nat) && #[trigger] follows(num, b, a)
    }
}

proof fn lemma_sale_on_its_way<N: Numerics>(
    num: &N,
    ticker: Seq<char>,
    shares: Number,
    a: Action,
    steps: nat,
)
    requires
        reached(num, RequestView::Sell { ticker, shares }, a, steps),
    ensures
        match a {
            Action::Reply(_) => true,
            Action::ReadLedger(q) => q.purpose matches LedgerUse::Sell { ticker: t, shares: n }
                && t@ == uppercase(ticker) && n == shares && q.ticker is None,
            Action::ReadPrice(q) => q.ticker@ == uppercase(ticker) && q.purpose
                == (PriceUse::Sell { shares }),
            Action::InsertTrade(t) => t.ticker@ == uppercase(ticker) && t.shares
                == shares.opposite(),
            _ => false,
        },
        a matches Action::Reply(r) ==> (r@ is Error || r@ is Done),
        a is ReadLedger ==> steps == 0,
        a is ReadPrice ==> steps == 1,
        a is InsertTrade ==> steps == 2,
    decreases steps,
{
    let req = RequestView::Sell { ticker, shares };
    if steps > 0 {
        let b = choose|b: Action|
            reached(num, req, b, (steps - 1) as nat) && #[trigger] follows(num, b, a);
        lemma_sale_on_its_way(num, ticker, shares, b, (steps - 1) as nat);
    }
}

/// Where a sale leads to a line in the ledger, the line takes off exactly the
/// shares that were to be sold, of the ticker that was named, in upper case.
pub proof fn sales_are_booked_as_asked<N: Numerics>(
    num: &N,
    ticker: Seq<char>,
    shares: Number,
    line: Trade,
    steps: nat,
)
    requires
        reached(num, RequestView::Sell { ticker, shares }, Action::InsertTrade(line), steps),
    ensures
        line.ticker@ == uppercase(ticker),
        line.shares.opposite() == shares,
        line.shares.place() == -shares.place(),
        positive(shares),
{
    lemma_sale_on_its_way(num, ticker, shares, Action::InsertTrade(line), steps);
    lemma_reached_is_sound(
        num,
        RequestView::Sell { ticker, shares },
        Action::InsertTrade(line),
        steps,
    );
    lemma_trades_are_of_amounts(
        num,
        RequestView::Sell { ticker, shares },
        Action::InsertTrade(line),
        steps,
    );
}

proof fn lemma_reached_is_sound<N: Numerics>(num: &N, req: RequestView, a: Action, steps: nat)
    requires
        reached(num, req, a, steps),
    ensures
        a.sound(),
    decreases steps,
{
    if steps == 0 {
        rules_are_kept(num, req, a, a);
    } else {
        let b = choose|b: Action|
            reached(num, req, b, (steps - 1) as nat) && #[trigger] follows(num, b, a);
        lemma_reached_is_sound(num, req, b, (steps - 1) as nat);
        rules_are_kept(num, req, b, a);
    }
}

/// A request for a trade that gets any further than its response names a
/// plausible ticker and a positive amount, and a positive price if any.
proof fn lemma_trades_are_of_amounts<N: Numerics>(
    num: &N,
    req: RequestView,
    a: Action,
    steps: nat,
)
    requires
        reached(num, req, a, steps),
        a !is Reply,
    ensures
        req matches RequestView::Sell { ticker, shares } ==> valid_ticker(uppercase(ticker))
            && positive(shares),
        req matches RequestView::Buy { ticker, shares, price } ==> valid_ticker(uppercase(ticker))
            && positive(shares) && (price is Some ==> positive(price->0)),
    decreases steps,
{
    if steps > 0 {
        let b = choose|b: Action|
            reached(num, req, b, (steps - 1) as nat) && #[trigger] follows(num, b, a);
        lemma_trades_are_of_amounts(num, req, b, (steps - 1) as nat);
    }
}

proof fn lemma_purchase_on_its_way<N: Numerics>(
    num: &N,
    ticker: Seq<char>,
    shares: Number,
    price: Option<Number>,
    a: Action,
    steps: nat,
)
    requires
        reached(num, RequestView::Buy { ticker, shares, price }, a, steps),
    ensures
        match a {
            Action::Reply(_) => true,
            Action::ReadPrice(q) => q.ticker@ == uppercase(ticker) && q.purpose == PriceUse::Buy(
                (Order { shares, price }),
            ),
            Action::ReadConfig(q) => q matches ConfigQuery::Fetch { ticker: t, purpose } && t@
                == uppercase(ticker) && purpose == FetchUse::Buy((Order { shares, price })),
            Action::Fetch(f) => f.ticker@ == uppercase(ticker) && f.purpose == FetchUse::Buy(
                (Order { shares, price }),
            ),
            Action::StorePrice(j) => j.ticker@ == uppercase(ticker) && j.purpose == FetchUse::Buy(
                (Order { shares, price }),
            ),
            Action::InsertTrade(t) => t.ticker@ == uppercase(ticker) && t.shares == shares && (
            price matches Some(p) ==> t.price == p),
            _ => false,
        },
        a matches Action::Reply(r) ==> (r@ is Error || r@ is Done),
    decreases steps,
{
    let req = RequestView::Buy { ticker, shares, price };
    if steps > 0 {
        let b = choose|b: Action|
            reached(num, req, b, (steps - 1) as nat) && #[trigger] follows(num, b, a);
        lemma_purchase_on_its_way(num, ticker, shares, price, b, (steps - 1) as nat);
    }
}

/// Where a purchase leads to a line in the ledger, the line adds exactly the
/// shares that were to be bought, of the ticker that was named, in upper case,
/// and at the price that was named, if one was.
pub proof fn purchases_are_booked_as_asked<N: Numerics>(
    num: &N,
    ticker: Seq<char>,
    shares: Number,
    price: Option<Number>,
    line: Trade,
    steps: nat,
)
    requires
        reached(num, RequestView::Buy { ticker, shares, price }, Action::InsertTrade(line), steps),
    ensures
        line.ticker@ == uppercase(ticker),
        line.shares == shares,
        price matches Some(p) ==> line.price == p,
        positive(shares),
{
    lemma_purchase_on_its_way(num, ticker, shares, price, Action::InsertTrade(line), steps);
    lemma_trades_are_of_amounts(
        num,
        RequestView::Buy { ticker, shares, price },
        Action::InsertTrade(line),
        steps,
    );
}

/// A trade without a price of its own is booked at the close it was answered
/// with: the current price of what is cached, or of what was just fetched and
/// cached.
pub proof fn trades_are_booked_at_the_close(
    q: PriceQuery,
    job: StoreJob,
    s: PriceSnapshot,
    next: Action,
    line: Trade,
)
    requires
        next == Action::InsertTrade(line),
    ensures
        q.purpose is Sell && q.answered(Ok(Some(s)), next) ==> line.price == s.current_price,
        (q.purpose matches PriceUse::Buy(order) && order.price is None) && q.answered(
            Ok(Some(s)),
            next,
        ) ==> line.price == s.current_price,
        (job.purpose matches FetchUse::Buy(order) && order.price is None) && job.answered(
            Ok(()),
            next,
        ) ==> line.price == job.snapshot.current_price,
{
}

/// What is fetched is what is stored, under the ticker it was fetched for.
pub proof fn what_is_fetched_is_stored(job: FetchJob, s: PriceSnapshot, next: Action)
    requires
        job.answered(Ok(s), next),
    ensures
        next matches Action::StorePrice(store) && store.ticker@ == job.ticker@ && store.snapshot
            == s,
{
}

proof fn lemma_no_line_without_a_trade<N: Numerics>(
    num: &N,
    req: RequestView,
    a: Action,
    steps: nat,
)
    requires
        reached(num, req, a, steps),
        !(req is Buy),
        !(req is Sell),
    ensures
        a !is InsertTrade,
        a matches Action::ReadPrice(q) ==> !(q.purpose is Buy) && !(q.purpose is Sell),
        a matches Action::ReadConfig(q) ==> (q matches ConfigQuery::Fetch { purpose, .. } ==> !(
        purpose is Buy)),
        a matches Action::ReloadConfig(q) ==> q == ConfigQuery::Status,
        a matches Action::ReadLedger(q) ==> !(q.purpose is Sell),
        a matches Action::Fetch(f) ==> !(f.purpose is Buy),
        a matches Action::StorePrice(j) ==> !(j.purpose is Buy),
    decreases steps,
{
    if steps > 0 {
        let b = choose|b: Action|
            reached(num, req, b, (steps - 1) as nat) && #[trigger] follows(num, b, a);
        lemma_no_line_without_a_trade(num, req, b, (steps - 1) as nat);
    }
}

/// Nothing but a purchase or a sale ever writes to the ledger.
pub proof fn only_trades_reach_the_ledger<N: Numerics>(
    num: &N,
    req: RequestView,
    line: Trade,
    steps: nat,
)
    requires
        reached(num, req, Action::InsertTrade(line), steps),
    ensures
        req is Buy || req is Sell,
{
    if !(req is Buy) && !(req is Sell) {
        lemma_no_line_without_a_trade(num, req, Action::InsertTrade(line), steps);
    }
}

/// A trade is confirmed only once its line is in the ledger: what comes before
/// the confirmation is writing that line, and it succeeded.
pub proof fn trades_are_confirmed_once_booked<N: Numerics>(
    num: &N,
    req: RequestView,
    b: Action,
    a: Action,
    steps: nat,
)
    requires
        req is Buy || req is Sell,
        replies(a, ResponseView::Done),
        reached(num, req, b, steps),
        follows(num, b, a),
    ensures
        b is InsertTrade,
        b matches Action::InsertTrade(line) ==> exists|done: ()| #[trigger]
            line.answered(Ok::<(), String>(done), a),
{
    match req {
        RequestView::Buy { ticker, shares, price } => {
            lemma_purchase_on_its_way(num, ticker, shares, price, b, steps);
        },
        RequestView::Sell { ticker, shares } => {
            lemma_sale_on_its_way(num, ticker, shares, b, steps);
        },
        _ => {},
    }
    if let Action::InsertTrade(line) = b {
        assert(line.answered(Ok::<(), String>(()), a));
    }
}

/// A trade is never confirmed at once.
pub proof fn trades_take_steps(req: RequestView, a: Action)
    requires
        req is Buy || req is Sell,
        dispatched(req, a),
    ensures
        !replies(a, ResponseView::Done),
{
}

/// A sale is refused for want of shares only where it exceeds what the ledger
/// leaves of the ticker and a billionth of a share.
pub proof fn sales_within_holdings_go_on<N: Numerics>(
    num: &N,
    q: LedgerQuery,
    ticker: String,
    shares: Number,
    rows: Vec<TransactionRow>,
    next: Action,
)
    requires
        q.purpose == (LedgerUse::Sell { ticker, shares }),
        q.answered(num, Ok(rows), next),
    ensures
        reads_price(next, ticker@, PriceUse::Sell { shares }) || exists|
            held: Seq<Holding>,
            limit: Number,
        | #[trigger]
            reduced(num, rows@, held) && #[trigger] call_ensures(
                N::plus,
                (num, shares_held(held, ticker@), Number { bits: 0x3e11_2e0b_e826_d695 }),
                limit,
            ) && shares.above(limit) && (next matches Action::Reply(r) && r@ is Error),
{
    let (held, limit) = choose|held: Seq<Holding>, limit: Number|
        {
            &&& #[trigger] reduced(num, rows@, held)
            &&& #[trigger] sum(num, shares_held(held, ticker@), dust(), limit)
            &&& if shares.above(limit) {
                exists|amount: Seq<char>| #[trigger]
                    shown_as(num, shares_held(held, ticker@), amount) && refuses(
                        next,
                        "only holding "@ + amount + " of "@ + ticker@,
                    )
            } else {
                reads_price(next, ticker@, PriceUse::Sell { shares })
            }
        };
    assert(reduced(num, rows@, held));
    assert(call_ensures(
        N::plus,
        (num, shares_held(held, ticker@), Number { bits: 0x3e11_2e0b_e826_d695 }),
        limit,
    ));
}

/// What is held of a ticker is what its position says, and nothing where it has
/// none.
pub proof fn shares_held_are_those_of_the_position(
    held: Seq<Holding>,
    ticker: Seq<char>,
    i: int,
)
    requires
        forall|j: int, k: int|
            0 <= j < k < held.len() ==> (#[trigger] held[j]).ticker@ != (
            #[trigger] held[k]).ticker@,
    ensures
        0 <= i < held.len() && held[i].ticker@ == ticker ==> shares_held(held, ticker)
            == held[i].position.shares,
        (forall|j: int| 0 <= j < held.len() ==> (#[trigger] held[j]).ticker@ != ticker)
            ==> shares_held(held, ticker) == (Number { bits: 0 }),
    decreases held.len(),
{
    if held.len() > 0 {
        let rest = held.drop_first();
        assert forall|j: int, k: int| 0 <= j < k < rest.len() implies (#[trigger] rest[j]).ticker@
            != (#[trigger] rest[k]).ticker@ by {
            assert(rest[j] == held[j + 1]);
            assert(rest[k] == held[k + 1]);
        }
        if 0 < i < held.len() {
            assert(rest[i - 1] == held[i]);
        }
        if forall|j: int| 0 <= j < held.len() ==> (#[trigger] held[j]).ticker@ != ticker {
            assert forall|j: int| 0 <= j < rest.len() implies (#[trigger] rest[j]).ticker@
                != ticker by {
                assert(rest[j] == held[j + 1]);
            }
        }
        shares_held_are_those_of_the_position(rest, ticker, i - 1);
    }
}

/// The list of trades is what the ledger holds, of the ticker that was named if
/// one was, in upper case.
pub proof fn listings_are_what_the_ledger_holds<N: Numerics>(
    num: &N,
    ticker: Option<Seq<char>>,
    q: LedgerQuery,
    rows: Vec<TransactionRow>,
    next: Action,
)
    requires
        dispatched(RequestView::Transactions { ticker }, Action::ReadLedger(q)),
        q.answered(num, Ok(rows), next),
    ensures
        ticker is None ==> q.ticker is None,
        ticker matches Some(t) ==> q.ticker is Some && q.ticker->0@ == uppercase(t),
        replies(next, ResponseView::Transactions { rows: rows@ }),
{
}

/// A chart is made of what is cached and of the whole ledger: the prices that
/// were read, under the ticker that was named in upper case.
pub proof fn charts_are_of_what_is_cached<N: Numerics>(
    num: &N,
    ticker: Seq<char>,
    first: PriceQuery,
    found: Result<Option<PriceSnapshot>, String>,
    second: PriceQuery,
    s: PriceSnapshot,
    q: LedgerQuery,
    rows: Vec<TransactionRow>,
    next: Action,
)
    requires
        dispatched(RequestView::History { ticker }, Action::ReadPrice(first)),
        first.answered(found, Action::ReadPrice(second)),
        second.answered(Ok(Some(s)), Action::ReadLedger(q)),
        q.answered(num, Ok(rows), next),
    ensures
        first.ticker@ == uppercase(ticker),
        second.ticker@ == uppercase(ticker),
        q.ticker is None,
        exists|h: TickerHistory| #[trigger]
            charted(num, uppercase(ticker), s, rows@, h) && replies(
                next,
                ResponseView::History(h),
            ),
{
}

/// A report values one holding after another: what was read for a holding is
/// quoted for it and for no other, and those quoted before stay as they are.
pub proof fn reports_quote_what_was_read(
    ticker: String,
    report: Report,
    found: Option<PriceSnapshot>,
    next: Action,
    after: Report,
)
    requires
        report.quoted@.len() < report.held@.len(),
        (PriceQuery { ticker, purpose: PriceUse::Quote(report) }).answered(Ok(found), next),
        (next matches Action::ReadPrice(q) && q.purpose == PriceUse::Quote(after)) || next
            == Action::ReadRefreshDay(after),
    ensures
        after.whole == report.whole,
        after.held@ == report.held@,
        after.quoted@.len() == report.quoted@.len() + 1,
        forall|i: int|
            0 <= i < report.quoted@.len() ==> #[trigger] after.quoted@[i] == report.quoted@[i],
        after.quoted@.last().ticker == report.held@[report.quoted@.len() as int].ticker,
        after.quoted@.last().position == report.held@[report.quoted@.len() as int].position,
        found matches Some(s) ==> (after.quoted@.last().quote matches Some(quote) && quote.price
            == s.current_price && quote.fetched_on == s.fetched_on),
        found is None ==> after.quoted@.last().quote is None,
        next is ReadRefreshDay <==> after.quoted@.len() == after.held@.len(),
        next matches Action::ReadPrice(q) ==> q.ticker@
            == after.held@[after.quoted@.len() as int].ticker@,
{
}

/// A report starts from the positions that the whole ledger leaves, none of them
/// quoted yet; it is a summary or its rows alone, as the request asks.
pub proof fn reports_are_of_the_whole_ledger<N: Numerics>(
    num: &N,
    req: RequestView,
    q: LedgerQuery,
    rows: Vec<TransactionRow>,
    next: Action,
    report: Report,
)
    requires
        req is Summary || req is Holdings,
        dispatched(req, Action::ReadLedger(q)),
        q.answered(num, Ok(rows), next),
        (next matches Action::ReadPrice(p) && p.purpose == PriceUse::Quote(report)) || next
            == Action::ReadRefreshDay(report),
    ensures
        q.ticker is None,
        report.whole <==> req is Summary,
        reduced(num, rows@, report.held@),
        report.quoted@.len() == 0,
        next matches Action::ReadPrice(p) ==> report.held@.len() > 0 && p.ticker@
            == report.held@[0].ticker@,
{
}

/// A report ends in the summary of what was quoted, with the day of the last
/// refresh, or in its rows alone.
pub proof fn reports_end_in_a_summary<N: Numerics>(
    num: &N,
    report: Report,
    day: Option<String>,
    end: Action,
)
    requires
        report.answered(num, Ok(day), end),
    ensures
        exists|s: PortfolioSummary|
            {
                &&& #[trigger] summed_up(num, report.quoted@, s)
                &&& s.last_refresh == day
                &&& report.whole ==> replies(end, ResponseView::Summary(s))
                &&& !report.whole ==> replies(end, ResponseView::Holdings { rows: s.rows@ })
            },
{
}

/// What is stored of a choice is the provider that was named, with the key that
/// came with it where it needs one, and with none where it does not.
pub proof fn choices_are_stored_as_made(
    provider: Seq<char>,
    api_key: Option<Seq<char>>,
    save: ConfigSave,
)
    requires
        dispatched(RequestView::SetProvider { provider, api_key }, Action::SaveConfig(save)),
    ensures
        save.config@.provider == Some(provider),
        entry(provider) matches Some(info) && (info.requires_key ==> save.config@.api_key
            == api_key && api_key is Some && api_key->0.len() > 0) && (!info.requires_key
            ==> save.config@.api_key is None),
{
    crate::provider::lookup_agrees_with_the_catalog(provider);
}

/// A ticker is one to ten letters and digits of ASCII, dots and dashes: nothing
/// that means anything in a request's address or on a terminal gets through, and
/// nothing plain is kept out.
pub proof fn tickers_are_plain(t: Seq<char>)
    ensures
        valid_ticker(t) ==> 1 <= t.len() <= 10,
        valid_ticker(t) ==> forall|i: int|
            0 <= i < t.len() ==> '0' <= #[trigger] t[i] <= '9' || 'A' <= t[i] <= 'Z' || 'a' <= t[i]
                <= 'z' || t[i] == '-' || t[i] == '.',
        1 <= t.len() <= 10 && (forall|i: int|
            0 <= i < t.len() ==> '0' <= #[trigger] t[i] <= '9' || 'A' <= t[i] <= 'Z' || t[i] == '-'
                || t[i] == '.') ==> valid_ticker(t),
{
}

/// What is cached is not fetched for a chart or a purchase, and what is not
/// cached is, under the ticker that was asked for.
pub proof fn only_what_is_missing_is_fetched(
    q: PriceQuery,
    found: Result<Option<PriceSnapshot>, String>,
    next: Action,
)
    requires
        q.purpose is Check || q.purpose is Buy,
        q.answered(found, next),
    ensures
        next is ReadConfig <==> !(found is Ok && found->Ok_0 is Some),
        next matches Action::ReadConfig(c) ==> (c matches ConfigQuery::Fetch { ticker, .. }
            && ticker@ == q.ticker@),
{
}

/// What a provider is asked for is the ticker that it was looked for, and it is
/// the provider that is configured; where there is none, the request ends.
pub proof fn providers_are_asked_for_the_ticker(
    ticker: String,
    purpose: FetchUse,
    c: ConfigView,
    next: Action,
)
    requires
        (ConfigQuery::Fetch { ticker, purpose }).answered(c, next),
    ensures
        current_source(c) is Ok <==> next is Fetch,
        next matches Action::Fetch(f) ==> f.ticker@ == ticker@ && current_source(c) == Ok::<
            PriceSourceView,
            Seq<char>,
        >(f.source@),
        next !is Fetch ==> (next matches Action::Reply(r) && r@ is Error),
{
}

/// A refresh is of all that is held, as it was asked for: one that is forced
/// fetches the first ticker at once, one that is not looks on what day it was
/// fetched; and with nothing held, it is done.
pub proof fn refreshes_are_forced_as_asked(
    force: bool,
    q: ConfigQuery,
    c: ConfigView,
    h: HeldQuery,
    tickers: Vec<String>,
    today: Seq<char>,
    next: Action,
)
    requires
        dispatched(RequestView::Refresh { force }, Action::ReadConfig(q)),
        q.answered(c, Action::ReadHeld(h)),
        h.answered(Ok(tickers), today, next),
    ensures
        current_source(c) == Ok::<PriceSourceView, Seq<char>>(h.source@),
        tickers@.len() == 0 ==> replies(next, ResponseView::Done),
        tickers@.len() > 0 && force ==> (next matches Action::Fetch(f) && f.ticker@
            == tickers@[0]@ && f.source@ == h.source@),
        tickers@.len() > 0 && !force ==> (next matches Action::ReadUpdated(sweep) && sweep.next == 0
            && sweep.today@ == today && views(sweep.tickers@) == views(tickers@)),
{
    assert(views(tickers@).len() == tickers@.len());
    if tickers@.len() > 0 {
        assert(views(tickers@)[0] == tickers@[0]@);
    }
}

/// Storing or clearing a choice puts it in force and reports how that stands;
/// where it cannot be done, the reason is told and nothing else is changed.
pub proof fn choices_take_effect_once_stored(
    save: ConfigSave,
    clear: ConfigClear,
    done: Result<(), String>,
    next: Action,
    c: ConfigView,
    end: Action,
)
    requires
        save.answered(done, next) || clear.answered(done, next),
    ensures
        done is Ok ==> next == Action::ReloadConfig(ConfigQuery::Status),
        done matches Err(e) ==> (next matches Action::Reply(r) && (r@ matches ResponseView::Error {
            message,
        } && holds(message, e@))),
        ConfigQuery::Status.answered(c, end) ==> replies(
            end,
            ResponseView::ProviderStatus(status_of(c)),
        ),
{
    broadcast use {lemma_parts_hold, lemma_holds_itself};

}

/// The laws on requests hold of what the daemon does: of the first step that
/// [`dispatch`] takes, and of every step that something read leads to.
pub proof fn laws_hold_of_what_is_read<N: Numerics>(
    num: &N,
    req: Request,
    ledger: LedgerQuery,
    rows: Result<Vec<TransactionRow>, String>,
    price: PriceQuery,
    found: Result<Option<PriceSnapshot>, String>,
    config: ConfigQuery,
    providers: &Providers,
    report: Report,
    day: Result<Option<String>, String>,
    next: Action,
)
    ensures
        call_ensures(dispatch, (req,), next) ==> dispatched(req@, next),
        call_ensures(LedgerQuery::answer::<N>, (ledger, num, rows), next) ==> ledger.answered(
            num,
            rows,
            next,
        ),
        call_ensures(PriceQuery::answer, (price, found), next) ==> price.answered(found, next),
        call_ensures(ConfigQuery::answer, (config, providers), next) ==> config.answered(
            providers.config@,
            next,
        ),
        call_ensures(Report::answer::<N>, (report, num, day), next) ==> report.answered(
            num,
            day,
            next,
        ),
{
}

/// The laws on requests hold of what the daemon does: of every step that
/// something fetched, stored or erased leads to.
pub proof fn laws_hold_of_what_is_done(
    fetch: FetchJob,
    fetched: Result<PriceSnapshot, String>,
    store: StoreJob,
    trade: Trade,
    save: ConfigSave,
    clear: ConfigClear,
    done: Result<(), String>,
    holdings: HeldQuery,
    held: Result<Vec<String>, String>,
    today: String,
    sweep: Sweep,
    updated: Option<String>,
    next: Action,
)
    ensures
        call_ensures(FetchJob::answer, (fetch, fetched), next) ==> fetch.answered(fetched, next),
        call_ensures(StoreJob::answer, (store, done), next) ==> store.answered(done, next),
        call_ensures(Trade::answer, (trade, done), next) ==> trade.answered(done, next),
        call_ensures(ConfigSave::answer, (save, done), next) ==> save.answered(done, next),
        call_ensures(ConfigClear::answer, (clear, done), next) ==> clear.answered(done, next),
        call_ensures(HeldQuery::answer, (holdings, held, today), next) ==> holdings.answered(
            held,
            today@,
            next,
        ),
        call_ensures(Sweep::answer, (sweep, updated), next) ==> sweep.answered(
            optional_text(updated),
            next,
        ),
{
}

/// A check for stale prices sweeps what is held where there is a provider; where
/// there is none, it says so only if something is held. What it fetches is what
/// does not have today's close.
pub proof fn stale_checks_sweep_what_is_held(
    tickers: Vec<String>,
    providers: &Providers,
    today: String,
    check: StaleCheck,
)
    requires
        call_ensures(refresh_stale, (Ok(tickers), providers, today), check),
    ensures
        current_source(providers.config@) is Ok <==> check is Sweep,
        check is Idle ==> tickers@.len() == 0,
        check is Skipped ==> tickers@.len() > 0,
        check matches StaleCheck::Sweep(next) ==> (tickers@.len() == 0 ==> replies(
            next,
            ResponseView::Done,
        )) && (tickers@.len() > 0 ==> (next matches Action::ReadUpdated(sweep) && sweep.next == 0
            && !sweep.force && views(sweep.tickers@) == views(tickers@) && sweep.today@ == today@)),
        check !is Unlisted,
{
    assert(views(tickers@).len() == tickers@.len());
}

/// A line from a client is passed over exactly where it is blank; a request is
/// taken up, and what is no request is answered with the reason.
pub proof fn lines_are_taken_up(line: &str, parsed: Result<Request, String>, next: Option<Action>)
    requires
        call_ensures(handle, (line, parsed), next),
    ensures
        next is None <==> trim(line@).len() == 0,
        next is Some && parsed is Ok ==> dispatched(parsed->Ok_0@, next->0),
        next is Some && parsed is Err ==> (next->0 matches Action::Reply(r) && (
        r@ matches ResponseView::Error { message } && holds(message, parsed->Err_0@))),
{
    broadcast use {lemma_parts_hold, lemma_holds_itself};

}

} // verus!
