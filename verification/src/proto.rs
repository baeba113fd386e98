//! What travels between the daemon and its clients: one [`Request`] per line
//! from the client, one [`Response`] per line back.

use vstd::prelude::*;

use crate::number::Number;
use crate::provider::{optional_text, ProviderStatus, ProviderStatusView};
use crate::secret::SecretString;

verus! {

/// What a client asks of the daemon.
#[derive(Debug, Clone)]
pub enum Request {
    Ping,
    Summary,
    Holdings,
    /// Price history and Bollinger bands for a ticker, held or not.
    History { ticker: String },
    Transactions { ticker: Option<String> },
    Buy {
        ticker: String,
        shares: Number,
        /// Override price. If `None`, the daemon uses the latest cached close.
        price: Option<Number>,
    },
    Sell { ticker: String, shares: Number },
    /// Refresh held tickers that don't already have today's close. `force`
    /// fetches every held ticker again.
    Refresh { force: bool },
    /// Refresh exactly one ticker, held or not.
    RefreshTicker { ticker: String },
    /// Which provider is configured, and is it ready. Never returns the key.
    ProviderStatus,
    /// Choose the price data provider and, if it needs one, store its key.
    SetProvider { provider: String, api_key: Option<SecretString> },
    /// Forget the selected provider and erase any stored key.
    ClearProvider,
}

/// A [`Request`] with its texts as sequences.
pub enum RequestView {
    Ping,
    Summary,
    Holdings,
    History { ticker: Seq<char> },
    Transactions { ticker: Option<Seq<char>> },
    Buy { ticker: Seq<char>, shares: Number, price: Option<Number> },
    Sell { ticker: Seq<char>, shares: Number },
    Refresh { force: bool },
    RefreshTicker { ticker: Seq<char> },
    ProviderStatus,
    SetProvider { provider: Seq<char>, api_key: Option<Seq<char>> },
    ClearProvider,
}

/// The view of an optional secret.
pub open spec fn optional_secret(key: Option<SecretString>) -> Option<Seq<char>> {
    match key {
        Some(k) => Some(k@),
        None => None,
    }
}

impl View for Request {
    type V = RequestView;

    open spec fn view(&self) -> RequestView {
        match *self {
            Request::Ping => RequestView::Ping,
            Request::Summary => RequestView::Summary,
            Request::Holdings => RequestView::Holdings,
            Request::History { ticker } => RequestView::History { ticker: ticker@ },
            Request::Transactions { ticker } => RequestView::Transactions {
                ticker: optional_text(ticker),
            },
            Request::Buy { ticker, shares, price } => RequestView::Buy {
                ticker: ticker@,
                shares,
                price,
            },
            Request::Sell { ticker, shares } => RequestView::Sell { ticker: ticker@, shares },
            Request::Refresh { force } => RequestView::Refresh { force },
            Request::RefreshTicker { ticker } => RequestView::RefreshTicker { ticker: ticker@ },
            Request::ProviderStatus => RequestView::ProviderStatus,
            Request::SetProvider { provider, api_key } => RequestView::SetProvider {
                provider: provider@,
                api_key: optional_secret(api_key),
            },
            Request::ClearProvider => RequestView::ClearProvider,
        }
    }
}

/// What the daemon answers. `Done` says that a request that asks for nothing
/// back was carried out.
#[derive(Debug, Clone)]
pub enum Response {
    Done,
    Pong,
    Error { message: String },
    Summary(PortfolioSummary),
    Holdings { rows: Vec<HoldingRow> },
    History(TickerHistory),
    Transactions { rows: Vec<TransactionRow> },
    ProviderStatus(ProviderStatus),
}

/// A [`Response`] with its texts as sequences.
#[verifier::ext_equal]
pub enum ResponseView {
    Done,
    Pong,
    Error { message: Seq<char> },
    Summary(PortfolioSummary),
    Holdings { rows: Seq<HoldingRow> },
    History(TickerHistory),
    Transactions { rows: Seq<TransactionRow> },
    ProviderStatus(ProviderStatusView),
}

impl View for Response {
    type V = ResponseView;

    open spec fn view(&self) -> ResponseView {
        match *self {
            Response::Done => ResponseView::Done,
            Response::Pong => ResponseView::Pong,
            Response::Error { message } => ResponseView::Error { message: message@ },
            Response::Summary(s) => ResponseView::Summary(s),
            Response::Holdings { rows } => ResponseView::Holdings { rows: rows@ },
            Response::History(h) => ResponseView::History(h),
            Response::Transactions { rows } => ResponseView::Transactions { rows: rows@ },
            Response::ProviderStatus(st) => ResponseView::ProviderStatus(st@),
        }
    }
}

/// Totals, and every holding.
#[derive(Debug, Clone)]
pub struct PortfolioSummary {
    pub total_value: Number,
    pub total_cost: Number,
    pub total_gain: Number,
    pub total_gain_pct: Number,
    pub last_refresh: Option<String>,
    pub rows: Vec<HoldingRow>,
}

/// One holding.
#[derive(Debug, Clone)]
pub struct HoldingRow {
    pub ticker: String,
    pub shares: Number,
    pub avg_cost: Number,
    pub current_price: Number,
    pub value: Number,
    pub cost_basis: Number,
    pub gain: Number,
    pub gain_pct: Number,
    pub weight: Number,
    pub last_updated: String,
}

/// Closes and bands of one ticker.
#[derive(Debug, Clone)]
pub struct TickerHistory {
    pub ticker: String,
    pub current_price: Number,
    pub last_updated: String,
    pub points: Vec<HistoryPoint>,
    /// Bollinger band values aligned one to one with `points`.
    pub bands: Vec<BandPoint>,
    pub holding: Option<HoldingRow>,
}

/// One daily close.
#[derive(Debug, Clone)]
pub struct HistoryPoint {
    /// `YYYY-MM-DD`.
    pub date: String,
    pub close: Number,
}

/// A [`HistoryPoint`] with its date as a sequence.
pub struct HistoryPointView {
    pub date: Seq<char>,
    pub close: Number,
}

impl View for HistoryPoint {
    type V = HistoryPointView;

    open spec fn view(&self) -> HistoryPointView {
        HistoryPointView { date: self.date@, close: self.close }
    }
}

/// The views of the points.
pub open spec fn point_views(points: Seq<HistoryPoint>) -> Seq<HistoryPointView> {
    points.map_values(|p: HistoryPoint| p@)
}

/// The bands at one close; absent before the window is full.
#[derive(Debug, Clone, Copy)]
pub struct BandPoint {
    pub sma: Option<Number>,
    pub upper: Option<Number>,
    pub lower: Option<Number>,
}

/// One line of the ledger. A sell has negative shares.
#[derive(Debug, Clone)]
pub struct TransactionRow {
    pub id: i64,
    pub ticker: String,
    pub shares: Number,
    pub price: Number,
    pub txn_date: String,
}

/// What is cached of a ticker's prices.
#[derive(Debug, Clone)]
pub struct PriceSnapshot {
    pub ticker: String,
    pub current_price: Number,
    pub points: Vec<HistoryPoint>,
    /// `YYYY-MM-DD`.
    pub fetched_on: String,
}

/// An error response.
pub fn refusal(message: String) -> (r: Response)
    ensures
        r@ == (ResponseView::Error { message: message@ }),
{
    Response::Error { message }
}

} // verus!
