//! Aggregates the ledger into holdings.

use vstd::prelude::*;

use crate::bands::{band_at, bollinger_bands, lemma_total_steps, total};
use crate::number::{
    change_in_percent, difference, exact_on_wholes, in_percent, multiple, percent_change,
    percent_of, percentages_are_of_a_hundred, product, quotient, sum, Number, Numerics, DUST_BITS,
    TWO_BITS,
};
use crate::proto::{
    HistoryPoint, HoldingRow, PortfolioSummary, PriceSnapshot, TickerHistory, TransactionRow,
};
use crate::text::{before, same, sorts_before, text_order_is_total, text_order_is_transitive};

verus! {

/// What is held of one ticker.
#[derive(Debug, Clone, Copy)]
pub struct Position {
    pub shares: Number,
    pub cost_basis: Number,
}

/// A ticker and what is held of it.
#[derive(Debug, Clone)]
pub struct Holding {
    pub ticker: String,
    pub position: Position,
}

/// The position before the first trade.
pub open spec fn nothing() -> Position {
    Position { shares: Number { bits: 0 }, cost_basis: Number { bits: 0 } }
}

/// The least holding that counts as one.
pub open spec fn dust() -> Number {
    Number { bits: DUST_BITS }
}

/// `after` is an outcome of trading `shares` at `price` out of position `p`. A
/// buy adds shares and cost. A sell out of a holding keeps the average cost of
/// the shares that remain, and the cost never falls below zero. A sell out of
/// nothing moves the shares only.
pub open spec fn traded<N: Numerics>(
    num: &N,
    p: Position,
    shares: Number,
    price: Number,
    after: Position,
) -> bool {
    &&& sum(num, p.shares, shares, after.shares)
    &&& if shares.not_below(Number { bits: 0 }) {
        exists|c: Number|
            product(num, shares, price, c) && #[trigger] sum(
                num,
                p.cost_basis,
                c,
                after.cost_basis,
            )
    } else if p.shares.above(Number { bits: 0 }) {
        exists|average: Number, c: Number|
            {
                &&& quotient(num, p.cost_basis, p.shares, average)
                &&& #[trigger] product(num, after.shares, average, c)
                &&& after.cost_basis == c.clipped()
            }
    } else {
        after.cost_basis == p.cost_basis
    }
}

/// `p` is an outcome of replaying, oldest first, the trades in `ticker` of a
/// ledger that lists the newest first.
pub open spec fn replayed<N: Numerics>(
    num: &N,
    ledger: Seq<TransactionRow>,
    ticker: Seq<char>,
    p: Position,
) -> bool
    decreases ledger.len(),
{
    if ledger.len() == 0 {
        p == nothing()
    } else if ledger[0].ticker@ == ticker {
        exists|q: Position|
            replayed(num, ledger.drop_first(), ticker, q) && #[trigger] traded(
                num,
                q,
                ledger[0].shares,
                ledger[0].price,
                p,
            )
    } else {
        replayed(num, ledger.drop_first(), ticker, p)
    }
}

/// Whether the ledger has a trade in `ticker`.
pub open spec fn occurs(ledger: Seq<TransactionRow>, ticker: Seq<char>) -> bool {
    exists|i: int| 0 <= i < ledger.len() && (#[trigger] ledger[i]).ticker@ == ticker
}

/// Whether `holdings` has an entry for `ticker`.
pub open spec fn listed(holdings: Seq<Holding>, ticker: Seq<char>) -> bool {
    exists|i: int| 0 <= i < holdings.len() && (#[trigger] holdings[i]).ticker@ == ticker
}

/// Whether the entries stand in the order of their tickers, no ticker twice.
pub open spec fn in_order(holdings: Seq<Holding>) -> bool {
    forall|i: int, j: int|
        0 <= i < j < holdings.len() ==> before(
            (#[trigger] holdings[i]).ticker@,
            (#[trigger] holdings[j]).ticker@,
        )
}

/// Whether every entry is an outcome of replaying its ticker's trades.
pub open spec fn faithful<N: Numerics>(
    num: &N,
    ledger: Seq<TransactionRow>,
    holdings: Seq<Holding>,
) -> bool {
    forall|i: int|
        0 <= i < holdings.len() ==> occurs(ledger, (#[trigger] holdings[i]).ticker@) && replayed(
            num,
            ledger,
            holdings[i].ticker@,
            holdings[i].position,
        )
}

/// Applies one trade.
pub fn trade<N: Numerics>(num: &N, p: Position, shares: Number, price: Number) -> (after: Position)
    ensures
        traded(num, p, shares, price, after),
{
    let total = num.plus(p.shares, shares);
    if shares.at_least(Number::zero()) {
        let c = num.times(shares, price);
        let cost = num.plus(p.cost_basis, c);
        let after = Position { shares: total, cost_basis: cost };
        assert(product(num, shares, price, c) && sum(num, p.cost_basis, c, after.cost_basis));
        after
    } else if p.shares.exceeds(Number::zero()) {
        let average = num.over(p.cost_basis, p.shares);
        let c = num.times(total, average);
        let after = Position { shares: total, cost_basis: c.clip() };
        assert(product(num, after.shares, average, c));
        after
    } else {
        Position { shares: total, cost_basis: p.cost_basis }
    }
}

/// Where `ticker` stands in `holdings`, or belongs.
fn slot(holdings: &Vec<Holding>, ticker: &str) -> (at: usize)
    requires
        in_order(holdings@),
    ensures
        at <= holdings@.len(),
        forall|k: int| 0 <= k < at ==> before((#[trigger] holdings@[k]).ticker@, ticker@),
        at < holdings@.len() ==> !before(holdings@[at as int].ticker@, ticker@),
{
    let mut at: usize = 0;
    while at < holdings.len() && sorts_before(holdings[at].ticker.as_str(), ticker)
        invariant
            at <= holdings@.len(),
            forall|k: int| 0 <= k < at ==> before((#[trigger] holdings@[k]).ticker@, ticker@),
        decreases holdings@.len() - at,
    {
        at = at + 1;
    }
    at
}

proof fn lemma_insert_in_order(holdings: Seq<Holding>, at: int, h: Holding)
    requires
        in_order(holdings),
        0 <= at <= holdings.len(),
        forall|k: int| 0 <= k < at ==> before((#[trigger] holdings[k]).ticker@, h.ticker@),
        at < holdings.len() ==> before(h.ticker@, holdings[at].ticker@),
    ensures
        in_order(holdings.insert(at, h)),
{
    let more = holdings.insert(at, h);
    assert forall|i: int, j: int| 0 <= i < j < more.len() implies before(
        (#[trigger] more[i]).ticker@,
        (#[trigger] more[j]).ticker@,
    ) by {
        if i == at && j > at + 1 {
            assert(holdings[at] == more[at + 1]);
            assert(holdings[j - 1] == more[j]);
            text_order_is_transitive(h.ticker@, holdings[at].ticker@, holdings[j - 1].ticker@);
        } else if j == at {
            assert(holdings[i] == more[i]);
        } else if i < at && j > at {
            assert(holdings[i] == more[i]);
            assert(holdings[j - 1] == more[j]);
        } else if i > at {
            assert(holdings[i - 1] == more[i]);
            assert(holdings[j - 1] == more[j]);
        } else if j < at {
            assert(holdings[i] == more[i]);
            assert(holdings[j] == more[j]);
        }
    }
}

proof fn lemma_absent(holdings: Seq<Holding>, at: int, ticker: Seq<char>)
    requires
        in_order(holdings),
        0 <= at <= holdings.len(),
        forall|k: int| 0 <= k < at ==> before((#[trigger] holdings[k]).ticker@, ticker),
        at < holdings.len() ==> before(ticker, holdings[at].ticker@),
    ensures
        !listed(holdings, ticker),
{
    assert forall|k: int| 0 <= k < holdings.len() implies (#[trigger] holdings[k]).ticker@
        != ticker by {
        text_order_is_total(ticker, ticker);
        if k > at {
            assert(before(holdings[at].ticker@, holdings[k].ticker@));
            text_order_is_transitive(ticker, holdings[at].ticker@, holdings[k].ticker@);
        }
    }
}

proof fn lemma_replay_without<N: Numerics>(
    num: &N,
    ledger: Seq<TransactionRow>,
    ticker: Seq<char>,
)
    requires
        !occurs(ledger, ticker),
    ensures
        replayed(num, ledger, ticker, nothing()),
    decreases ledger.len(),
{
    if ledger.len() > 0 {
        assert(ledger[0].ticker@ != ticker);
        assert forall|i: int| 0 <= i < ledger.drop_first().len() implies (
        #[trigger] ledger.drop_first()[i]).ticker@ != ticker by {
            assert(ledger.drop_first()[i] == ledger[i + 1]);
        }
        lemma_replay_without(num, ledger.drop_first(), ticker);
    }
}

/// Every ticker ever traded with its position, in the order of the tickers.
fn all_positions<N: Numerics>(num: &N, txns: &Vec<TransactionRow>) -> (table: Vec<Holding>)
    ensures
        in_order(table@),
        faithful(num, txns@, table@),
        forall|ticker: Seq<char>| occurs(txns@, ticker) <==> #[trigger] listed(table@, ticker),
{
    let mut table: Vec<Holding> = Vec::new();
    let mut i: usize = txns.len();
    while i > 0
        invariant
            i <= txns@.len(),
            in_order(table@),
            faithful(num, txns@.skip(i as int), table@),
            forall|ticker: Seq<char>|
                occurs(txns@.skip(i as int), ticker) <==> #[trigger] listed(table@, ticker),
        decreases i,
    {
        let ghost older = txns@.skip(i as int);
        i = i - 1;
        let t = &txns[i];
        let ghost ledger = txns@.skip(i as int);
        let ghost was = table@;
        assert(ledger.drop_first() =~= older);
        assert(ledger[0] == *t);
        let at = slot(&table, t.ticker.as_str());
        if at < table.len() && same(table[at].ticker.as_str(), t.ticker.as_str()) {
            let p = table[at].position;
            let q = trade(num, p, t.shares, t.price);
            let name = table[at].ticker.clone();
            assert(was[at as int].ticker@ == t.ticker@);
            assert(replayed(num, older, t.ticker@, p));
            table.set(at, Holding { ticker: name, position: q });
            assert(replayed(num, ledger, t.ticker@, q));
            assert forall|k: int| 0 <= k < table@.len() implies (#[trigger] table@[k]).ticker@
                == was[k].ticker@ by {}
        } else {
            let name = t.ticker.clone();
            proof {
                if at < was.len() {
                    text_order_is_total(was[at as int].ticker@, t.ticker@);
                }
                lemma_absent(was, at as int, t.ticker@);
                assert(!occurs(older, t.ticker@)) by {
                    assert(!listed(was, t.ticker@));
                }
                lemma_replay_without(num, older, t.ticker@);
            }
            let empty = Position { shares: Number::zero(), cost_basis: Number::zero() };
            let q = trade(num, empty, t.shares, t.price);
            assert(replayed(num, ledger, t.ticker@, q));
            let h = Holding { ticker: name, position: q };
            proof {
                lemma_insert_in_order(was, at as int, h);
            }
            table.insert(at, h);
        }
        proof {
            lemma_table_grows(num, was, table@, ledger, at as int);
        }
    }
    assert(txns@.skip(0) =~= txns@);
    table
}

proof fn lemma_table_grows<N: Numerics>(
    num: &N,
    was: Seq<Holding>,
    now: Seq<Holding>,
    ledger: Seq<TransactionRow>,
    at: int,
)
    requires
        ledger.len() > 0,
        in_order(now),
        faithful(num, ledger.drop_first(), was),
        forall|ticker: Seq<char>|
            occurs(ledger.drop_first(), ticker) <==> #[trigger] listed(was, ticker),
        0 <= at < now.len(),
        now[at].ticker@ == ledger[0].ticker@,
        replayed(num, ledger, now[at].ticker@, now[at].position),
        ({
            ||| at < was.len() && now == was.update(at, now[at]) && was[at].ticker@
                == now[at].ticker@
            ||| at <= was.len() && now == was.insert(at, now[at])
        }),
    ensures
        faithful(num, ledger, now),
        forall|ticker: Seq<char>| occurs(ledger, ticker) <==> #[trigger] listed(now, ticker),
{
    let older = ledger.drop_first();
    assert forall|ticker: Seq<char>| occurs(ledger, ticker) <==> #[trigger] listed(now, ticker) by {
        if occurs(ledger, ticker) {
            let i = choose|i: int| 0 <= i < ledger.len() && (#[trigger] ledger[i]).ticker@ == ticker;
            if i == 0 {
                assert(now[at].ticker@ == ticker);
            } else {
                assert(older[i - 1].ticker@ == ticker);
                assert(listed(was, ticker));
                let k = choose|k: int| 0 <= k < was.len() && (#[trigger] was[k]).ticker@ == ticker;
                if now.len() == was.len() {
                    assert(now[k].ticker@ == ticker);
                } else if k < at {
                    assert(now[k].ticker@ == ticker);
                } else {
                    assert(now[k + 1].ticker@ == ticker);
                }
            }
        }
        if listed(now, ticker) {
            let k = choose|k: int| 0 <= k < now.len() && (#[trigger] now[k]).ticker@ == ticker;
            if k == at {
                assert(ledger[0].ticker@ == ticker);
            } else {
                if now.len() == was.len() {
                    assert(was[k].ticker@ == ticker);
                } else if k < at {
                    assert(was[k].ticker@ == ticker);
                } else {
                    assert(was[k - 1].ticker@ == ticker);
                }
                assert(listed(was, ticker));
                assert(occurs(older, ticker));
                let i = choose|i: int| 0 <= i < older.len() && (#[trigger] older[i]).ticker@ == ticker;
                assert(ledger[i + 1].ticker@ == ticker);
            }
        }
    }
    assert forall|k: int| 0 <= k < now.len() implies occurs(ledger, (#[trigger] now[k]).ticker@)
        && replayed(num, ledger, now[k].ticker@, now[k].position) by {
        assert(listed(now, now[k].ticker@));
        if k != at {
            let old = if now.len() == was.len() || k < at {
                k
            } else {
                k - 1
            };
            assert(was[old] == now[k]);
            if k < at {
                text_order_is_total(now[k].ticker@, now[at].ticker@);
            } else {
                text_order_is_total(now[at].ticker@, now[k].ticker@);
            }
            assert(ledger[0].ticker@ != now[k].ticker@);
        }
    }
}

/// `held` is an outcome of reducing the ledger: in the order of the tickers, a
/// position for every ticker of which more than dust is held, and for no other.
pub open spec fn reduced<N: Numerics>(
    num: &N,
    ledger: Seq<TransactionRow>,
    held: Seq<Holding>,
) -> bool {
    &&& in_order(held)
    &&& faithful(num, ledger, held)
    &&& forall|i: int| 0 <= i < held.len() ==> (#[trigger] held[i]).position.shares.above(dust())
    &&& forall|ticker: Seq<char>|
        occurs(ledger, ticker) && !#[trigger] listed(held, ticker) ==> exists|p: Position|
            #[trigger] replayed(num, ledger, ticker, p) && !p.shares.above(dust())
}

/// Reduces the ledger, newest first, into positions in the order of their
/// tickers. A ticker is kept where what is held of it is above dust.
pub fn positions<N: Numerics>(num: &N, txns: &Vec<TransactionRow>) -> (held: Vec<Holding>)
    ensures
        reduced(num, txns@, held@),
{
    let mut table = all_positions(num, txns);
    let ghost full = table@;
    let mut k: usize = 0;
    while k < table.len()
        invariant
            k <= table@.len(),
            in_order(table@),
            faithful(num, txns@, table@),
            faithful(num, txns@, full),
            forall|i: int| 0 <= i < k ==> (#[trigger] table@[i]).position.shares.above(dust()),
            forall|i: int|
                0 <= i < full.len() ==> table@.contains(#[trigger] full[i])
                    || !full[i].position.shares.above(dust()),
        decreases table@.len() - k,
    {
        if table[k].position.shares.exceeds(Number::from_bits(DUST_BITS)) {
            k = k + 1;
        } else {
            let ghost was = table@;
            table.remove(k);
            proof {
                assert forall|i: int| 0 <= i < table@.len() implies #[trigger] table@[i] == was[if i
                    < k {
                    i
                } else {
                    i + 1
                }] by {}
                assert forall|i: int, j: int| 0 <= i < j < table@.len() implies before(
                    (#[trigger] table@[i]).ticker@,
                    (#[trigger] table@[j]).ticker@,
                ) by {}
                assert forall|i: int| 0 <= i < full.len() implies table@.contains(
                    #[trigger] full[i],
                ) || !full[i].position.shares.above(dust()) by {
                    if was.contains(full[i]) {
                        let m = choose|m: int| 0 <= m < was.len() && was[m] == full[i];
                        if m < k {
                            assert(table@[m] == full[i]);
                        } else if m > k {
                            assert(table@[m - 1] == full[i]);
                        }
                    }
                }
            }
        }
    }
    proof {
        assert forall|ticker: Seq<char>|
            occurs(txns@, ticker) && !#[trigger] listed(table@, ticker) implies exists|p: Position|
            #[trigger] replayed(num, txns@, ticker, p) && !p.shares.above(dust()) by {
            assert(listed(full, ticker));
            let i = choose|i: int| 0 <= i < full.len() && (#[trigger] full[i]).ticker@ == ticker;
            assert(!table@.contains(full[i]));
            assert(replayed(num, txns@, ticker, full[i].position));
        }
    }
    table
}

/// The price of a sale does not enter into any position: what is left is valued
/// at the average cost from before.
pub proof fn sales_go_by_the_average_cost<N: Numerics>(
    num: &N,
    ledger: Seq<TransactionRow>,
    sale: TransactionRow,
    elsewhere: TransactionRow,
    ticker: Seq<char>,
    p: Position,
)
    requires
        sale.ticker@ == elsewhere.ticker@,
        sale.shares == elsewhere.shares,
        zero().above(sale.shares),
    ensures
        replayed(num, seq![sale] + ledger, ticker, p) <==> replayed(
            num,
            seq![elsewhere] + ledger,
            ticker,
            p,
        ),
{
    let a = seq![sale] + ledger;
    let b = seq![elsewhere] + ledger;
    assert(a.drop_first() =~= ledger);
    assert(b.drop_first() =~= ledger);
    if ticker == sale.ticker@ {
        assert forall|q: Position| #[trigger]
            traded(num, q, sale.shares, sale.price, p) == traded(
                num,
                q,
                elsewhere.shares,
                elsewhere.price,
                p,
            ) by {}
        assert forall|q: Position| #[trigger]
            traded(num, q, elsewhere.shares, elsewhere.price, p) == traded(
                num,
                q,
                sale.shares,
                sale.price,
                p,
            ) by {}
    }
}

/// A sale out of a holding takes its shares off, and leaves as cost what the
/// remaining shares come to at the average cost from before, never less than
/// nothing.
pub proof fn sales_leave_the_rest_at_its_cost<N: Numerics>(
    num: &N,
    p: Position,
    shares: Number,
    price: Number,
    after: Position,
)
    requires
        zero().above(shares),
        p.shares.above(zero()),
        traded(num, p, shares, price, after),
    ensures
        sum(num, p.shares, shares, after.shares),
        exists|average: Number, c: Number|
            {
                &&& quotient(num, p.cost_basis, p.shares, average)
                &&& #[trigger] product(num, after.shares, average, c)
                &&& after.cost_basis == c.clipped()
            },
        after.cost_basis.not_below(zero()),
{
}

/// A purchase adds its shares, and what they cost: the product of its shares and
/// its price, whatever is held already.
pub proof fn purchases_add_what_they_cost<N: Numerics>(
    num: &N,
    p: Position,
    shares: Number,
    price: Number,
    after: Position,
)
    requires
        shares.not_below(zero()),
        traded(num, p, shares, price, after),
    ensures
        call_ensures(N::plus, (num, p.shares, shares), after.shares),
        exists|c: Number| #[trigger]
            call_ensures(N::times, (num, shares, price), c) && call_ensures(
                N::plus,
                (num, p.cost_basis, c),
                after.cost_basis,
            ),
{
    let c = choose|c: Number|
        product(num, shares, price, c) && #[trigger] sum(num, p.cost_basis, c, after.cost_basis);
    assert(call_ensures(N::times, (num, shares, price), c));
}

proof fn lemma_replay_steps<N: Numerics>(
    num: &N,
    ledger: Seq<TransactionRow>,
    ticker: Seq<char>,
    p: Position,
) -> (steps: Seq<Position>)
    requires
        replayed(num, ledger, ticker, p),
    ensures
        steps.len() == ledger.len() + 1,
        steps[0] == nothing(),
        steps.last() == p,
        forall|k: int|
            0 <= k < ledger.len() ==> if ledger[ledger.len() - 1 - k].ticker@ == ticker {
                traded(
                    num,
                    #[trigger] steps[k],
                    ledger[ledger.len() - 1 - k].shares,
                    ledger[ledger.len() - 1 - k].price,
                    steps[k + 1],
                )
            } else {
                steps[k + 1] == steps[k]
            },
    decreases ledger.len(),
{
    if ledger.len() == 0 {
        seq![p]
    } else {
        let older = ledger.drop_first();
        let n = ledger.len() as int;
        let q = if ledger[0].ticker@ == ticker {
            choose|q: Position|
                replayed(num, older, ticker, q) && #[trigger] traded(
                    num,
                    q,
                    ledger[0].shares,
                    ledger[0].price,
                    p,
                )
        } else {
            p
        };
        let earlier = lemma_replay_steps(num, older, ticker, q);
        let steps = earlier.push(p);
        assert forall|k: int| 0 <= k < n implies if ledger[n - 1 - k].ticker@ == ticker {
            traded(
                num,
                #[trigger] steps[k],
                ledger[n - 1 - k].shares,
                ledger[n - 1 - k].price,
                steps[k + 1],
            )
        } else {
            steps[k + 1] == steps[k]
        } by {
            if k < n - 1 {
                assert(older[n - 2 - k] == ledger[n - 1 - k]);
                assert(steps[k] == earlier[k]);
                assert(steps[k + 1] == earlier[k + 1]);
            }
        }
        steps
    }
}

/// What is held of a ticker is what comes of its lines in the ledger, from the
/// oldest to the newest, and of no other: it starts from nothing, and each line
/// trades out of what the lines before it left.
pub proof fn positions_follow_the_ledger<N: Numerics>(
    num: &N,
    ledger: Seq<TransactionRow>,
    held: Seq<Holding>,
    i: int,
)
    requires
        reduced(num, ledger, held),
        0 <= i < held.len(),
    ensures
        exists|steps: Seq<Position>|
            {
                &&& #[trigger] steps.len() == ledger.len() + 1
                &&& steps[0].shares == (Number { bits: 0 })
                &&& steps[0].cost_basis == (Number { bits: 0 })
                &&& steps.last() == held[i].position
                &&& forall|k: int|
                    0 <= k < ledger.len() ==> if ledger[ledger.len() - 1 - k].ticker@
                        == held[i].ticker@ {
                        traded(
                            num,
                            #[trigger] steps[k],
                            ledger[ledger.len() - 1 - k].shares,
                            ledger[ledger.len() - 1 - k].price,
                            steps[k + 1],
                        )
                    } else {
                        steps[k + 1] == steps[k]
                    }
            },
{
    let steps = lemma_replay_steps(num, ledger, held[i].ticker@, held[i].position);
    assert(steps.len() == ledger.len() + 1);
}

/// A sale where nothing is held moves the shares, and leaves the cost as it is.
pub proof fn sales_of_nothing_cost_nothing<N: Numerics>(
    num: &N,
    p: Position,
    shares: Number,
    price: Number,
    after: Position,
)
    requires
        !shares.not_below(zero()),
        !p.shares.above(zero()),
        traded(num, p, shares, price, after),
    ensures
        call_ensures(N::plus, (num, p.shares, shares), after.shares),
        after.cost_basis == p.cost_basis,
{
}

/// The shares bought of a ticker, line by line.
pub open spec fn whole_shares(
    ledger: Seq<TransactionRow>,
    ticker: Seq<char>,
    shares: Seq<int>,
) -> int
    decreases ledger.len(),
{
    if ledger.len() == 0 {
        0
    } else {
        whole_shares(ledger.drop_first(), ticker, shares.drop_first()) + if ledger[0].ticker@
            == ticker {
            shares[0]
        } else {
            0
        }
    }
}

/// What was paid for a ticker, line by line.
pub open spec fn whole_spent(
    ledger: Seq<TransactionRow>,
    ticker: Seq<char>,
    shares: Seq<int>,
    prices: Seq<int>,
) -> int
    decreases ledger.len(),
{
    if ledger.len() == 0 {
        0
    } else {
        whole_spent(ledger.drop_first(), ticker, shares.drop_first(), prices.drop_first()) + if
            ledger[0].ticker@ == ticker {
            shares[0] * prices[0]
        } else {
            0
        }
    }
}

proof fn lemma_wholes_positive(
    ledger: Seq<TransactionRow>,
    ticker: Seq<char>,
    shares: Seq<int>,
    prices: Seq<int>,
)
    requires
        shares.len() == ledger.len() == prices.len(),
        forall|k: int| 0 <= k < shares.len() ==> #[trigger] shares[k] >= 0,
        forall|k: int| 0 <= k < prices.len() ==> #[trigger] prices[k] >= 0,
    ensures
        whole_shares(ledger, ticker, shares) >= 0,
        whole_spent(ledger, ticker, shares, prices) >= 0,
    decreases ledger.len(),
{
    if ledger.len() > 0 {
        lemma_wholes_positive(
            ledger.drop_first(),
            ticker,
            shares.drop_first(),
            prices.drop_first(),
        );
        let a = shares[0];
        let b = prices[0];
        assert(a * b >= 0) by (nonlinear_arith)
            requires
                a >= 0,
                b >= 0,
        ;
    }
}

/// Where the host computes without rounding and a ticker was only ever bought,
/// its shares are those of all its lines, and its cost is what all of them paid:
/// no line is left out, and none counted for less.
pub proof fn purchases_of_wholes_add_up<N: Numerics>(
    num: &N,
    whole: spec_fn(Number) -> Option<int>,
    limit: int,
    ledger: Seq<TransactionRow>,
    ticker: Seq<char>,
    shares: Seq<int>,
    prices: Seq<int>,
    p: Position,
)
    requires
        exact_on_wholes(num, whole, limit),
        0 < limit,
        shares.len() == ledger.len() == prices.len(),
        forall|k: int|
            0 <= k < ledger.len() ==> (#[trigger] ledger[k]).shares.not_below(zero()) && whole(
                ledger[k].shares,
            ) == Some(shares[k]) && whole(ledger[k].price) == Some(prices[k]),
        forall|k: int| 0 <= k < shares.len() ==> #[trigger] shares[k] >= 0,
        forall|k: int| 0 <= k < prices.len() ==> #[trigger] prices[k] >= 0,
        whole_shares(ledger, ticker, shares) < limit,
        whole_spent(ledger, ticker, shares, prices) < limit,
        replayed(num, ledger, ticker, p),
    ensures
        whole(p.shares) == Some(whole_shares(ledger, ticker, shares)),
        whole(p.cost_basis) == Some(whole_spent(ledger, ticker, shares, prices)),
    decreases ledger.len(),
{
    if ledger.len() > 0 {
        let older = ledger.drop_first();
        let qs = shares.drop_first();
        let ps = prices.drop_first();
        assert forall|k: int| 0 <= k < older.len() implies (
        #[trigger] older[k]).shares.not_below(zero()) && whole(older[k].shares) == Some(qs[k])
            && whole(older[k].price) == Some(ps[k]) by {
            assert(older[k] == ledger[k + 1]);
        }
        lemma_wholes_positive(older, ticker, qs, ps);
        let a = shares[0];
        let b = prices[0];
        assert(a * b >= 0) by (nonlinear_arith)
            requires
                a >= 0,
                b >= 0,
        ;
        if ledger[0].ticker@ == ticker {
            let q = choose|q: Position|
                replayed(num, older, ticker, q) && #[trigger] traded(
                    num,
                    q,
                    ledger[0].shares,
                    ledger[0].price,
                    p,
                );
            purchases_of_wholes_add_up(num, whole, limit, older, ticker, qs, ps, q);
            purchases_add_what_they_cost(num, q, ledger[0].shares, ledger[0].price, p);
            let c = choose|c: Number| #[trigger]
                call_ensures(N::times, (num, ledger[0].shares, ledger[0].price), c)
                    && call_ensures(N::plus, (num, q.cost_basis, c), p.cost_basis);
            assert(whole(c) == Some(a * b));
        } else {
            purchases_of_wholes_add_up(num, whole, limit, older, ticker, qs, ps, p);
        }
    }
}

/// Where the host computes without rounding, a sale of `n` out of `s` shares
/// that cost `average` each leaves `s - n` shares that cost `average` each,
/// whatever they were sold at.
pub proof fn sales_of_wholes_keep_the_average<N: Numerics>(
    num: &N,
    whole: spec_fn(Number) -> Option<int>,
    limit: int,
    p: Position,
    sold: Number,
    price: Number,
    after: Position,
    s: int,
    average: int,
    n: int,
)
    requires
        exact_on_wholes(num, whole, limit),
        whole(p.shares) == Some(s),
        whole(p.cost_basis) == Some(multiple(s, average)),
        whole(sold) == Some(-n),
        0 < n <= s < limit,
        0 <= average < limit,
        multiple(s, average) < limit,
        !sold.not_below(zero()),
        traded(num, p, sold, price, after),
    ensures
        whole(after.shares) == Some(s - n),
        whole(after.cost_basis) == Some(multiple(s - n, average)),
{
    assert(whole(zero()) == Some(0int));
    assert(p.shares.above(Number { bits: 0 }));
    let (mean, c) = choose|mean: Number, c: Number|
        {
            &&& quotient(num, p.cost_basis, p.shares, mean)
            &&& #[trigger] product(num, after.shares, mean, c)
            &&& after.cost_basis == c.clipped()
        };
    assert(call_ensures(N::plus, (num, p.shares, sold), after.shares));
    assert(call_ensures(N::over, (num, p.cost_basis, p.shares), mean));
    assert(whole(mean) == Some(average)) by {
        assert(multiple(whole(p.shares)->0, average) == multiple(s, average));
    }
    assert(0 <= (s - n) * average <= s * average) by (nonlinear_arith)
        requires
            0 < n <= s,
            0 <= average,
    ;
    assert(call_ensures(N::times, (num, after.shares, mean), c));
    assert(whole(c) == Some((s - n) * average));
    assert(c.above(Number { bits: 0 }) <==> whole(c)->0 > 0);
}

/// A position counts as held exactly where it is above a billionth of a share.
/// What is held is listed by ticker, each once; a ticker whose trades come to
/// more than that, however they come out, is listed.
pub proof fn what_is_above_dust_is_held<N: Numerics>(
    num: &N,
    ledger: Seq<TransactionRow>,
    held: Seq<Holding>,
    ticker: Seq<char>,
)
    requires
        reduced(num, ledger, held),
    ensures
        forall|i: int|
            0 <= i < held.len() ==> (#[trigger] held[i]).position.shares.above(
                (Number { bits: 0x3e11_2e0b_e826_d695 }),
            ),
        forall|i: int, j: int|
            0 <= i < j < held.len() ==> before(
                (#[trigger] held[i]).ticker@,
                (#[trigger] held[j]).ticker@,
            ),
        forall|i: int|
            0 <= i < held.len() ==> exists|k: int|
                0 <= k < ledger.len() && (#[trigger] ledger[k]).ticker@ == (
                #[trigger] held[i]).ticker@,
        (exists|k: int| 0 <= k < ledger.len() && (#[trigger] ledger[k]).ticker@ == ticker) && (
        forall|p: Position| #[trigger]
            replayed(num, ledger, ticker, p) ==> p.shares.above(
                (Number { bits: 0x3e11_2e0b_e826_d695 }),
            )) ==> exists|i: int| 0 <= i < held.len() && (#[trigger] held[i]).ticker@ == ticker,
{
    assert forall|i: int| 0 <= i < held.len() implies exists|k: int|
        0 <= k < ledger.len() && (#[trigger] ledger[k]).ticker@ == (#[trigger] held[i]).ticker@ by {
        assert(occurs(ledger, held[i].ticker@));
    }
    if (exists|k: int| 0 <= k < ledger.len() && (#[trigger] ledger[k]).ticker@ == ticker) && (
    forall|p: Position| #[trigger]
        replayed(num, ledger, ticker, p) ==> p.shares.above(
            Number { bits: 0x3e11_2e0b_e826_d695 },
        )) {
        assert(occurs(ledger, ticker));
        assert(listed(held, ticker));
    }
}

/// A trade changes the position in its own ticker alone: those in all others are
/// what they were before it.
pub proof fn trades_leave_other_positions_alone<N: Numerics>(
    num: &N,
    ledger: Seq<TransactionRow>,
    trade: TransactionRow,
    ticker: Seq<char>,
    p: Position,
)
    requires
        trade.ticker@ != ticker,
    ensures
        replayed(num, seq![trade] + ledger, ticker, p) <==> replayed(num, ledger, ticker, p),
        occurs(seq![trade] + ledger, ticker) <==> occurs(ledger, ticker),
{
    let more = seq![trade] + ledger;
    assert(more.drop_first() =~= ledger);
    if occurs(ledger, ticker) {
        let i = choose|i: int| 0 <= i < ledger.len() && (#[trigger] ledger[i]).ticker@ == ticker;
        assert(more[i + 1].ticker@ == ticker);
    }
    if occurs(more, ticker) {
        let i = choose|i: int| 0 <= i < more.len() && (#[trigger] more[i]).ticker@ == ticker;
        assert(ledger[i - 1].ticker@ == ticker);
    }
}

/// A ticker is held once or not at all, and only if it was traded.
pub proof fn a_ticker_is_held_once<N: Numerics>(
    num: &N,
    ledger: Seq<TransactionRow>,
    held: Seq<Holding>,
    i: int,
    j: int,
)
    requires
        reduced(num, ledger, held),
        0 <= i < held.len(),
        0 <= j < held.len(),
        held[i].ticker@ == held[j].ticker@,
    ensures
        i == j,
        occurs(ledger, held[i].ticker@),
{
    if i != j {
        text_order_is_total(held[i].ticker@, held[j].ticker@);
    }
}

/// The price of a ticker and the day it was fetched.
#[derive(Debug, Clone)]
pub struct Quote {
    pub price: Number,
    pub fetched_on: String,
}

/// A holding with its cached price, if there is one.
#[derive(Debug, Clone)]
pub struct Quoted {
    pub ticker: String,
    pub position: Position,
    pub quote: Option<Quote>,
}

/// Zero.
pub open spec fn zero() -> Number {
    Number { bits: 0 }
}

/// What a holding's shares are priced at: zero without a cached price.
pub open spec fn quoted_price(h: Quoted) -> Number {
    match h.quote {
        Some(q) => q.price,
        None => zero(),
    }
}

/// When a holding's price was fetched: a dash without a cached price.
pub open spec fn quoted_day(h: Quoted) -> Seq<char> {
    match h.quote {
        Some(q) => q.fetched_on@,
        None => "—"@,
    }
}

/// `row` is an outcome of valuing a holding, its weight aside.
pub open spec fn valued<N: Numerics>(num: &N, h: Quoted, row: HoldingRow) -> bool {
    let price = quoted_price(h);
    &&& row.ticker@ == h.ticker@
    &&& row.last_updated@ == quoted_day(h)
    &&& row.shares == h.position.shares
    &&& row.cost_basis == h.position.cost_basis
    &&& row.current_price == price
    &&& if h.position.shares.above(zero()) {
        quotient(num, h.position.cost_basis, h.position.shares, row.avg_cost)
    } else {
        row.avg_cost == zero()
    }
    &&& product(num, h.position.shares, price, row.value)
    &&& difference(num, row.value, h.position.cost_basis, row.gain)
    &&& if row.avg_cost.above(zero()) && price.above(zero()) {
        percent_change(num, price, row.avg_cost, row.gain_pct)
    } else {
        row.gain_pct == zero()
    }
}

/// `weight` is an outcome of a value's share in the total, in percent.
pub open spec fn weighed<N: Numerics>(
    num: &N,
    value: Number,
    total_value: Number,
    weight: Number,
) -> bool {
    if total_value.above(zero()) {
        percent_of(num, value, total_value, weight)
    } else {
        weight == zero()
    }
}

/// The values of the rows.
pub open spec fn row_values(rows: Seq<HoldingRow>) -> Seq<Number> {
    rows.map_values(|r: HoldingRow| r.value)
}

/// The costs of the rows.
pub open spec fn row_costs(rows: Seq<HoldingRow>) -> Seq<Number> {
    rows.map_values(|r: HoldingRow| r.cost_basis)
}

/// Whether no row's value is NaN.
pub open spec fn comparable(rows: Seq<HoldingRow>) -> bool {
    forall|i: int| 0 <= i < rows.len() ==> !(#[trigger] rows[i]).value.nan()
}

/// Whether `after` is `rows` rearranged, `from[i]` saying where entry `i` stood.
pub open spec fn rearranged(
    rows: Seq<HoldingRow>,
    after: Seq<HoldingRow>,
    from: Seq<int>,
) -> bool {
    &&& after.len() == rows.len()
    &&& from.len() == rows.len()
    &&& forall|i: int|
        0 <= i < from.len() ==> 0 <= #[trigger] from[i] < rows.len() && after[i] == rows[from[i]]
    &&& forall|i: int, j: int|
        0 <= i < j < from.len() ==> #[trigger] from[i] != #[trigger] from[j]
}

/// Whether `after` is `rows` with the greatest value first, rows of equal value
/// in the order they had. Where a value is NaN, only that it is `rows`
/// rearranged.
pub open spec fn ranked_by(
    rows: Seq<HoldingRow>,
    after: Seq<HoldingRow>,
    from: Seq<int>,
) -> bool {
    &&& rearranged(rows, after, from)
    &&& comparable(rows) ==> forall|i: int, j: int|
        0 <= i < j < after.len() ==> {
            &&& (#[trigger] after[i]).value.not_below((#[trigger] after[j]).value)
            &&& after[j].value.not_below(after[i].value) ==> from[i] < from[j]
        }
}

/// Whether `after` is `rows` with the greatest value first.
pub open spec fn ranked(rows: Seq<HoldingRow>, after: Seq<HoldingRow>) -> bool {
    exists|from: Seq<int>| ranked_by(rows, after, from)
}

/// Puts the rows with the greatest value first; rows of equal value keep their
/// order.
pub fn rank(rows: Vec<HoldingRow>) -> (after: Vec<HoldingRow>)
    ensures
        ranked(rows@, after@),
{
    let ghost all = rows@;
    let mut rest = rows;
    let mut after: Vec<HoldingRow> = Vec::new();
    let ghost mut from: Seq<int> = seq![];
    while rest.len() > 0
        invariant
            rest@.len() + after@.len() == all.len(),
            rest@ == all.take(rest@.len() as int),
            from.len() == after@.len(),
            forall|i: int|
                0 <= i < from.len() ==> rest@.len() <= #[trigger] from[i] < all.len() && after@[i]
                    == all[from[i]],
            forall|i: int, j: int|
                0 <= i < j < from.len() ==> #[trigger] from[i] != #[trigger] from[j],
            comparable(all) ==> forall|i: int, j: int|
                0 <= i < j < after@.len() ==> {
                    &&& (#[trigger] after@[i]).value.not_below((#[trigger] after@[j]).value)
                    &&& after@[j].value.not_below(after@[i].value) ==> from[i] < from[j]
                },
        decreases rest@.len(),
    {
        let ghost index = rest@.len() - 1;
        let row = match rest.pop() {
            Some(r) => r,
            None => return after,
        };
        let ghost was = after@;
        let mut at: usize = 0;
        while at < after.len() && after[at].value.exceeds(row.value)
            invariant
                at <= after@.len(),
                forall|k: int| 0 <= k < at ==> (#[trigger] after@[k]).value.above(row.value),
            decreases after@.len() - at,
        {
            at = at + 1;
        }
        after.insert(at, row);
        proof {
            let before = from;
            from = before.insert(at as int, index);
            assert(row == all[index]);
            assert forall|i: int| 0 <= i < from.len() implies rest@.len() <= #[trigger] from[i]
                < all.len() && after@[i] == all[from[i]] by {
                if i < at {
                    assert(from[i] == before[i]);
                } else if i > at {
                    assert(from[i] == before[i - 1]);
                }
            }
            assert forall|i: int, j: int| 0 <= i < j < from.len() implies #[trigger] from[i]
                != #[trigger] from[j] by {
                if i < at {
                    assert(from[i] == before[i]);
                } else if i > at {
                    assert(from[i] == before[i - 1]);
                }
                if j < at {
                    assert(from[j] == before[j]);
                } else if j > at {
                    assert(from[j] == before[j - 1]);
                }
            }
            if comparable(all) {
                lemma_rank_insert(was, after@, before, from, at as int, index, all);
            }
        }
    }
    proof {
        assert(ranked_by(all, after@, from));
    }
    after
}

proof fn lemma_rank_insert(
    was: Seq<HoldingRow>,
    now: Seq<HoldingRow>,
    before: Seq<int>,
    from: Seq<int>,
    at: int,
    index: int,
    all: Seq<HoldingRow>,
)
    requires
        comparable(all),
        0 <= index < all.len(),
        0 <= at <= was.len(),
        before.len() == was.len(),
        now == was.insert(at, all[index]),
        from == before.insert(at, index),
        forall|i: int|
            0 <= i < was.len() ==> index < #[trigger] before[i] < all.len() && was[i]
                == all[before[i]],
        forall|k: int| 0 <= k < at ==> (#[trigger] was[k]).value.above(all[index].value),
        at < was.len() ==> !was[at].value.above(all[index].value),
        forall|i: int, j: int|
            0 <= i < j < was.len() ==> {
                &&& (#[trigger] was[i]).value.not_below((#[trigger] was[j]).value)
                &&& was[j].value.not_below(was[i].value) ==> before[i] < before[j]
            },
    ensures
        forall|i: int, j: int|
            0 <= i < j < now.len() ==> {
                &&& (#[trigger] now[i]).value.not_below((#[trigger] now[j]).value)
                &&& now[j].value.not_below(now[i].value) ==> from[i] < from[j]
            },
{
    assert forall|i: int, j: int| 0 <= i < j < now.len() implies {
        &&& (#[trigger] now[i]).value.not_below((#[trigger] now[j]).value)
        &&& now[j].value.not_below(now[i].value) ==> from[i] < from[j]
    } by {
        let oi = if i < at {
            i
        } else {
            i - 1
        };
        let oj = if j < at {
            j
        } else {
            j - 1
        };
        if i != at {
            assert(now[i] == was[oi]);
            assert(from[i] == before[oi]);
        }
        if j != at {
            assert(now[j] == was[oj]);
            assert(from[j] == before[oj]);
        }
        if i == at {
            assert(all[index] == now[i]);
            assert(was[oj] == all[before[oj]]);
            if oj > at {
                assert(was[at].value.not_below(was[oj].value));
            }
            assert(was[at] == all[before[at]]);
        }
    }
}

/// Whether `s` is an outcome of summing up the holdings: every holding valued
/// and weighed, the greatest value first, and the totals over all of them.
pub open spec fn summed_up<N: Numerics>(num: &N, held: Seq<Quoted>, s: PortfolioSummary) -> bool {
    &&& exists|rows: Seq<HoldingRow>|
        {
            &&& rows.len() == held.len()
            &&& forall|i: int|
                0 <= i < held.len() ==> valued(num, held[i], #[trigger] rows[i]) && weighed(
                    num,
                    rows[i].value,
                    s.total_value,
                    rows[i].weight,
                )
            &&& total(num, row_values(rows), zero(), s.total_value)
            &&& total(num, row_costs(rows), zero(), s.total_cost)
            &&& #[trigger] ranked(rows, s.rows@)
        }
    &&& difference(num, s.total_value, s.total_cost, s.total_gain)
    &&& if s.total_cost.above(zero()) {
        percent_of(num, s.total_gain, s.total_cost, s.total_gain_pct)
    } else {
        s.total_gain_pct == zero()
    }
}

/// Values one holding; the weight is left at zero.
fn value_row<N: Numerics>(num: &N, h: &Quoted) -> (row: HoldingRow)
    ensures
        valued(num, *h, row),
        row.weight == zero(),
{
    let price: Number;
    let last_updated: String;
    match &h.quote {
        Some(q) => {
            price = q.price;
            last_updated = q.fetched_on.clone();
        },
        None => {
            price = Number::zero();
            last_updated = "—".to_owned();
        },
    }
    let avg = if h.position.shares.exceeds(Number::zero()) {
        num.over(h.position.cost_basis, h.position.shares)
    } else {
        Number::zero()
    };
    let value = num.times(h.position.shares, price);
    let gain = num.minus(value, h.position.cost_basis);
    let gain_pct = if avg.exceeds(Number::zero()) && price.exceeds(Number::zero()) {
        change_in_percent(num, price, avg)
    } else {
        Number::zero()
    };
    HoldingRow {
        ticker: h.ticker.clone(),
        shares: h.position.shares,
        avg_cost: avg,
        current_price: price,
        value,
        cost_basis: h.position.cost_basis,
        gain,
        gain_pct,
        weight: Number::zero(),
        last_updated,
    }
}

/// Sums up the holdings, given in the order of their tickers.
pub fn summary<N: Numerics>(
    num: &N,
    held: &Vec<Quoted>,
    last_refresh: Option<String>,
) -> (s: PortfolioSummary)
    ensures
        summed_up(num, held@, s),
        s.last_refresh == last_refresh,
{
    let mut rows: Vec<HoldingRow> = Vec::new();
    let mut total_value = Number::zero();
    let mut total_cost = Number::zero();
    let mut i: usize = 0;
    while i < held.len()
        invariant
            i <= held@.len(),
            rows@.len() == i,
            forall|k: int| 0 <= k < i ==> valued(num, held@[k], #[trigger] rows@[k]),
            total(num, row_values(rows@), zero(), total_value),
            total(num, row_costs(rows@), zero(), total_cost),
        decreases held@.len() - i,
    {
        let row = value_row(num, &held[i]);
        let ghost was = rows@;
        let value_before = total_value;
        let cost_before = total_cost;
        total_value = num.plus(value_before, row.value);
        total_cost = num.plus(cost_before, row.cost_basis);
        assert(row_values(was.push(row)).drop_last() =~= row_values(was));
        assert(row_costs(was.push(row)).drop_last() =~= row_costs(was));
        assert(sum(num, value_before, row_values(was.push(row)).last(), total_value));
        assert(sum(num, cost_before, row_costs(was.push(row)).last(), total_cost));
        rows.push(row);
        i = i + 1;
    }
    let ghost plain = rows@;
    let mut k: usize = 0;
    while k < rows.len()
        invariant
            k <= rows@.len(),
            rows@.len() == held@.len(),
            plain.len() == rows@.len(),
            row_values(rows@) == row_values(plain),
            row_costs(rows@) == row_costs(plain),
            forall|j: int| 0 <= j < rows@.len() ==> valued(num, held@[j], #[trigger] rows@[j]),
            forall|j: int|
                0 <= j < k ==> weighed(
                    num,
                    (#[trigger] rows@[j]).value,
                    total_value,
                    rows@[j].weight,
                ),
        decreases rows@.len() - k,
    {
        let weight = if total_value.exceeds(Number::zero()) {
            in_percent(num, rows[k].value, total_value)
        } else {
            Number::zero()
        };
        let ghost was = rows@;
        rows[k].weight = weight;
        assert(rows@ == was.update(k as int, rows@[k as int]));
        assert(row_values(rows@) =~= row_values(was));
        assert(row_costs(rows@) =~= row_costs(was));
        k = k + 1;
    }
    let total_gain = num.minus(total_value, total_cost);
    let total_gain_pct = if total_cost.exceeds(Number::zero()) {
        in_percent(num, total_gain, total_cost)
    } else {
        Number::zero()
    };
    let ghost weighed_rows = rows@;
    let rows = rank(rows);
    let s = PortfolioSummary {
        total_value,
        total_cost,
        total_gain,
        total_gain_pct,
        last_refresh,
        rows,
    };
    assert(ranked(weighed_rows, s.rows@));
    s
}

/// `row` is an outcome of valuing a position at `price`, as a chart shows it.
pub open spec fn charted_holding<N: Numerics>(
    num: &N,
    h: Holding,
    price: Number,
    day: Seq<char>,
    row: HoldingRow,
) -> bool {
    &&& row.ticker@ == h.ticker@
    &&& row.shares == h.position.shares
    &&& row.cost_basis == h.position.cost_basis
    &&& row.current_price == price
    &&& row.weight == zero()
    &&& row.last_updated@ == day
    &&& quotient(num, h.position.cost_basis, h.position.shares, row.avg_cost)
    &&& product(num, h.position.shares, price, row.value)
    &&& difference(num, row.value, h.position.cost_basis, row.gain)
    &&& if row.avg_cost.above(zero()) {
        percent_change(num, price, row.avg_cost, row.gain_pct)
    } else {
        row.gain_pct == zero()
    }
}

/// The closes of the points.
pub open spec fn closes(points: Seq<HistoryPoint>) -> Seq<Number> {
    points.map_values(|p: HistoryPoint| p.close)
}

/// How many closes a band spans.
pub const BAND_WINDOW: usize = 20;

/// `h` is an outcome of charting a ticker: its cached closes, the bands over
/// them, and the position the ledger leaves in it.
pub open spec fn charted<N: Numerics>(
    num: &N,
    ticker: Seq<char>,
    snap: PriceSnapshot,
    ledger: Seq<TransactionRow>,
    h: TickerHistory,
) -> bool {
    &&& h.ticker@ == ticker
    &&& h.current_price == snap.current_price
    &&& h.last_updated == snap.fetched_on
    &&& h.points == snap.points
    &&& h.bands@.len() == snap.points@.len()
    &&& forall|i: int|
        0 <= i < h.bands@.len() ==> band_at(
            num,
            closes(snap.points@),
            i,
            BAND_WINDOW,
            Number { bits: TWO_BITS },
            #[trigger] h.bands@[i],
        )
    &&& exists|held: Seq<Holding>|
        {
            &&& #[trigger] reduced(num, ledger, held)
            &&& match h.holding {
                None => !listed(held, ticker),
                Some(row) => exists|i: int|
                    0 <= i < held.len() && (#[trigger] held[i]).ticker@ == ticker
                        && charted_holding(
                        num,
                        held[i],
                        snap.current_price,
                        snap.fetched_on@,
                        row,
                    ),
            }
        }
}

fn chart_holding<N: Numerics>(num: &N, h: &Holding, price: Number, day: &str) -> (row: HoldingRow)
    ensures
        charted_holding(num, *h, price, day@, row),
{
    let avg = num.over(h.position.cost_basis, h.position.shares);
    let value = num.times(h.position.shares, price);
    let gain = num.minus(value, h.position.cost_basis);
    let gain_pct = if avg.exceeds(Number::zero()) {
        change_in_percent(num, price, avg)
    } else {
        Number::zero()
    };
    HoldingRow {
        ticker: h.ticker.clone(),
        shares: h.position.shares,
        avg_cost: avg,
        current_price: price,
        value,
        cost_basis: h.position.cost_basis,
        gain,
        gain_pct,
        weight: Number::zero(),
        last_updated: day.to_owned(),
    }
}

/// What is charted of a ticker: nothing without a cached price.
pub fn history<N: Numerics>(
    num: &N,
    ticker: &str,
    snap: Option<PriceSnapshot>,
    txns: &Vec<TransactionRow>,
) -> (h: Option<TickerHistory>)
    ensures
        match (snap, h) {
            (None, None) => true,
            (Some(snap), Some(h)) => charted(num, ticker@, snap, txns@, h),
            _ => false,
        },
{
    let snap = match snap {
        Some(snap) => snap,
        None => return None,
    };
    let mut prices: Vec<Number> = Vec::new();
    let mut i: usize = 0;
    while i < snap.points.len()
        invariant
            i <= snap.points@.len(),
            prices@ == closes(snap.points@).take(i as int),
        decreases snap.points@.len() - i,
    {
        prices.push(snap.points[i].close);
        i = i + 1;
        assert(prices@ =~= closes(snap.points@).take(i as int));
    }
    assert(prices@ =~= closes(snap.points@));
    let bands = bollinger_bands(num, prices.as_slice(), BAND_WINDOW, Number::from_bits(TWO_BITS));
    let held = positions(num, txns);
    let mut holding: Option<HoldingRow> = None;
    let mut k: usize = 0;
    while k < held.len()
        invariant
            k <= held@.len(),
            match holding {
                None => forall|j: int| 0 <= j < k ==> (#[trigger] held@[j]).ticker@ != ticker@,
                Some(row) => exists|j: int|
                    0 <= j < held@.len() && (#[trigger] held@[j]).ticker@ == ticker@
                        && charted_holding(
                        num,
                        held@[j],
                        snap.current_price,
                        snap.fetched_on@,
                        row,
                    ),
            },
        decreases held@.len() - k,
    {
        if same(&held[k].ticker, ticker) {
            let row = chart_holding(num, &held[k], snap.current_price, snap.fetched_on.as_str());
            assert(held@[k as int].ticker@ == ticker@);
            holding = Some(row);
        }
        k = k + 1;
    }
    let h = TickerHistory {
        ticker: ticker.to_owned(),
        current_price: snap.current_price,
        last_updated: snap.fetched_on,
        points: snap.points,
        bands,
        holding,
    };
    assert(reduced(num, txns@, held@));
    Some(h)
}

/// Every holding has one row in a summary, and every row is that of a holding,
/// at its cached price: the value is the shares at that price, the gain what
/// that is above the cost, the average the cost by the shares, the gain in
/// percent how far the price is from the average, the weight the value in
/// percent of all values. Without a cached price, the price is zero.
pub proof fn rows_value_the_holdings<N: Numerics>(
    num: &N,
    held: Seq<Quoted>,
    s: PortfolioSummary,
)
    requires
        summed_up(num, held, s),
    ensures
        s.rows@.len() == held.len(),
        exists|from: Seq<int>|
            {
                &&& #[trigger] from.len() == held.len()
                &&& forall|i: int, j: int|
                    0 <= i < j < from.len() ==> #[trigger] from[i] != #[trigger] from[j]
                &&& forall|i: int|
                    0 <= i < from.len() ==> {
                        let row = s.rows@[i];
                        let h = held[#[trigger] from[i]];
                        &&& 0 <= from[i] < held.len()
                        &&& row.ticker@ == h.ticker@
                        &&& row.shares == h.position.shares
                        &&& row.cost_basis == h.position.cost_basis
                        &&& h.quote matches Some(q) ==> row.current_price == q.price
                            && row.last_updated@ == q.fetched_on@
                        &&& h.quote is None ==> row.current_price == (Number { bits: 0 })
                            && row.last_updated@ == "—"@
                        &&& call_ensures(
                            N::times,
                            (num, row.shares, row.current_price),
                            row.value,
                        )
                        &&& call_ensures(N::minus, (num, row.value, row.cost_basis), row.gain)
                        &&& row.shares.above(Number { bits: 0 }) ==> call_ensures(
                            N::over,
                            (num, row.cost_basis, row.shares),
                            row.avg_cost,
                        )
                        &&& !row.shares.above(Number { bits: 0 }) ==> row.avg_cost == (Number {
                            bits: 0,
                        })
                        &&& if row.avg_cost.above(Number { bits: 0 }) && row.current_price.above(
                            Number { bits: 0 },
                        ) {
                            percent_change(num, row.current_price, row.avg_cost, row.gain_pct)
                        } else {
                            row.gain_pct == (Number { bits: 0 })
                        }
                        &&& if s.total_value.above(Number { bits: 0 }) {
                            percent_of(num, row.value, s.total_value, row.weight)
                        } else {
                            row.weight == (Number { bits: 0 })
                        }
                    }
            },
{
    let rows = choose|rows: Seq<HoldingRow>|
        {
            &&& rows.len() == held.len()
            &&& forall|i: int|
                0 <= i < held.len() ==> valued(num, held[i], #[trigger] rows[i]) && weighed(
                    num,
                    rows[i].value,
                    s.total_value,
                    rows[i].weight,
                )
            &&& total(num, row_values(rows), zero(), s.total_value)
            &&& total(num, row_costs(rows), zero(), s.total_cost)
            &&& #[trigger] ranked(rows, s.rows@)
        };
    let from = choose|from: Seq<int>| ranked_by(rows, s.rows@, from);
    assert(from.len() == held.len());
    assert forall|i: int| 0 <= i < from.len() implies 0 <= #[trigger] from[i] < held.len()
        && valued(num, held[from[i]], s.rows@[i]) && weighed(
        num,
        s.rows@[i].value,
        s.total_value,
        s.rows@[i].weight,
    ) by {
        assert(s.rows@[i] == rows[from[i]]);
    }
}

/// The totals of a summary take in every holding, one after another: the values
/// of all of them, and the costs. The gain is what the values are above the
/// costs, and stands in percent of the costs.
pub proof fn totals_take_in_every_holding<N: Numerics>(
    num: &N,
    held: Seq<Quoted>,
    s: PortfolioSummary,
)
    requires
        summed_up(num, held, s),
    ensures
        exists|values: Seq<Number>, worth: Seq<Number>|
            #![trigger values.len(), worth.len()]
            {
                &&& values.len() == held.len()
                &&& worth.len() == held.len() + 1
                &&& worth[0] == (Number { bits: 0 })
                &&& worth.last() == s.total_value
                &&& forall|k: int|
                    0 <= k < held.len() ==> {
                        &&& call_ensures(
                            N::plus,
                            (num, worth[k], #[trigger] values[k]),
                            worth[k + 1],
                        )
                        &&& call_ensures(
                            N::times,
                            (
                                num,
                                held[k].position.shares,
                                match held[k].quote {
                                    Some(q) => q.price,
                                    None => Number { bits: 0 },
                                },
                            ),
                            values[k],
                        )
                    }
                &&& forall|i: int|
                    0 <= i < s.rows@.len() ==> values.contains((#[trigger] s.rows@[i]).value)
            },
        exists|paid: Seq<Number>|
            {
                &&& #[trigger] paid.len() == held.len() + 1
                &&& paid[0] == (Number { bits: 0 })
                &&& paid.last() == s.total_cost
                &&& forall|k: int|
                    0 <= k < held.len() ==> call_ensures(
                        N::plus,
                        (num, paid[k], (#[trigger] held[k]).position.cost_basis),
                        paid[k + 1],
                    )
            },
        call_ensures(N::minus, (num, s.total_value, s.total_cost), s.total_gain),
        s.total_cost.above((Number { bits: 0 })) ==> percent_of(
            num,
            s.total_gain,
            s.total_cost,
            s.total_gain_pct,
        ),
        !s.total_cost.above((Number { bits: 0 })) ==> s.total_gain_pct == (Number { bits: 0 }),
{
    let rows = choose|rows: Seq<HoldingRow>|
        {
            &&& rows.len() == held.len()
            &&& forall|i: int|
                0 <= i < held.len() ==> valued(num, held[i], #[trigger] rows[i]) && weighed(
                    num,
                    rows[i].value,
                    s.total_value,
                    rows[i].weight,
                )
            &&& total(num, row_values(rows), zero(), s.total_value)
            &&& total(num, row_costs(rows), zero(), s.total_cost)
            &&& #[trigger] ranked(rows, s.rows@)
        };
    let from = choose|from: Seq<int>| ranked_by(rows, s.rows@, from);
    let values = row_values(rows);
    let costs = row_costs(rows);
    let worth = lemma_total_steps(num, values, zero(), s.total_value);
    let paid = lemma_total_steps(num, costs, zero(), s.total_cost);
    assert(values.len() == held.len() && worth.len() == held.len() + 1);
    assert(paid.len() == held.len() + 1);
    assert forall|k: int| 0 <= k < held.len() implies {
        &&& call_ensures(N::plus, (num, worth[k], #[trigger] values[k]), worth[k + 1])
        &&& call_ensures(
            N::times,
            (
                num,
                held[k].position.shares,
                match held[k].quote {
                    Some(q) => q.price,
                    None => Number { bits: 0 },
                },
            ),
            values[k],
        )
    } by {
        assert(valued(num, held[k], rows[k]));
    }
    assert forall|i: int| 0 <= i < s.rows@.len() implies values.contains(
        (#[trigger] s.rows@[i]).value,
    ) by {
        assert(s.rows@[i] == rows[from[i]]);
        assert(values[from[i]] == s.rows@[i].value);
    }
    assert forall|k: int| 0 <= k < held.len() implies call_ensures(
        N::plus,
        (num, paid[k], (#[trigger] held[k]).position.cost_basis),
        paid[k + 1],
    ) by {
        assert(valued(num, held[k], rows[k]));
        assert(costs[k] == held[k].position.cost_basis);
    }
}

/// The rows of a summary stand with the greatest value first, and rows of equal
/// value in the order of their tickers, unless some value is no number.
pub proof fn greatest_values_come_first<N: Numerics>(
    num: &N,
    held: Seq<Quoted>,
    s: PortfolioSummary,
    i: int,
    j: int,
)
    requires
        summed_up(num, held, s),
        0 <= i < j < s.rows@.len(),
        forall|k: int| 0 <= k < s.rows@.len() ==> !(#[trigger] s.rows@[k]).value.nan(),
    ensures
        s.rows@[i].value.not_below(s.rows@[j].value),
        s.rows@[j].value.not_below(s.rows@[i].value) && (forall|a: int, b: int|
            0 <= a < b < held.len() ==> before(
                (#[trigger] held[a]).ticker@,
                (#[trigger] held[b]).ticker@,
            )) ==> before(s.rows@[i].ticker@, s.rows@[j].ticker@),
{
    let rows = choose|rows: Seq<HoldingRow>|
        {
            &&& rows.len() == held.len()
            &&& forall|i: int|
                0 <= i < held.len() ==> valued(num, held[i], #[trigger] rows[i]) && weighed(
                    num,
                    rows[i].value,
                    s.total_value,
                    rows[i].weight,
                )
            &&& total(num, row_values(rows), zero(), s.total_value)
            &&& total(num, row_costs(rows), zero(), s.total_cost)
            &&& #[trigger] ranked(rows, s.rows@)
        };
    let from = choose|from: Seq<int>| ranked_by(rows, s.rows@, from);
    lemma_all_places_taken(from, rows.len() as int);
    assert forall|k: int| 0 <= k < rows.len() implies !(#[trigger] rows[k]).value.nan() by {
        assert(from.contains(k));
        let m = choose|m: int| 0 <= m < from.len() && from[m] == k;
        assert(s.rows@[m] == rows[from[m]]);
    }
    assert(s.rows@[i] == rows[from[i]] && s.rows@[j] == rows[from[j]]);
    assert(valued(num, held[from[i]], rows[from[i]]));
    assert(valued(num, held[from[j]], rows[from[j]]));
}

/// As many different places as there are take up all of them.
proof fn lemma_all_places_taken(from: Seq<int>, n: int)
    requires
        from.len() == n,
        forall|i: int| 0 <= i < from.len() ==> 0 <= #[trigger] from[i] < n,
        forall|i: int, j: int|
            0 <= i < j < from.len() ==> #[trigger] from[i] != #[trigger] from[j],
    ensures
        forall|k: int| 0 <= k < n ==> #[trigger] from.contains(k),
{
    let all = vstd::set_lib::set_int_range(0, n);
    vstd::set_lib::lemma_int_range(0, n);
    assert(from.no_duplicates());
    from.unique_seq_to_set();
    assert(from.to_set().subset_of(all));
    vstd::set_lib::lemma_subset_equality(from.to_set(), all);
    assert forall|k: int| 0 <= k < n implies #[trigger] from.contains(k) by {
        assert(all.contains(k));
        assert(from.to_set().contains(k));
    }
}

proof fn lemma_row_is_valued<N: Numerics>(
    num: &N,
    held: Seq<Quoted>,
    s: PortfolioSummary,
    i: int,
) -> (k: int)
    requires
        summed_up(num, held, s),
        0 <= i < s.rows@.len(),
    ensures
        0 <= k < held.len(),
        valued(num, held[k], s.rows@[i]),
{
    let rows = choose|rows: Seq<HoldingRow>|
        {
            &&& rows.len() == held.len()
            &&& forall|i: int|
                0 <= i < held.len() ==> valued(num, held[i], #[trigger] rows[i]) && weighed(
                    num,
                    rows[i].value,
                    s.total_value,
                    rows[i].weight,
                )
            &&& total(num, row_values(rows), zero(), s.total_value)
            &&& total(num, row_costs(rows), zero(), s.total_cost)
            &&& #[trigger] ranked(rows, s.rows@)
        };
    let from = choose|from: Seq<int>| ranked_by(rows, s.rows@, from);
    assert(s.rows@[i] == rows[from[i]]);
    from[i]
}

/// A summary and a chart agree on a holding: at a price above zero, a row of a
/// summary is, its weight aside, what a chart shows of that position at that
/// price on that day.
pub proof fn rows_agree_with_charts<N: Numerics>(
    num: &N,
    held: Seq<Quoted>,
    s: PortfolioSummary,
    i: int,
)
    requires
        summed_up(num, held, s),
        0 <= i < s.rows@.len(),
        s.rows@[i].shares.above(zero()),
        s.rows@[i].current_price.above(zero()),
    ensures
        charted_holding(
            num,
            (Holding {
                ticker: s.rows@[i].ticker,
                position: (Position {
                    shares: s.rows@[i].shares,
                    cost_basis: s.rows@[i].cost_basis,
                }),
            }),
            s.rows@[i].current_price,
            s.rows@[i].last_updated@,
            (HoldingRow { weight: Number { bits: 0 }, ..s.rows@[i] }),
        ),
{
    let _ = lemma_row_is_valued(num, held, s, i);
}

/// Where the host computes without rounding, the gain of a row is to its cost
/// what its gain in percent is to a hundred: for `shares` that cost `average`
/// each, at a price `k` times the average above it.
pub proof fn gains_of_wholes_agree<N: Numerics>(
    num: &N,
    whole: spec_fn(Number) -> Option<int>,
    limit: int,
    held: Seq<Quoted>,
    s: PortfolioSummary,
    i: int,
    shares: int,
    average: int,
    k: int,
)
    requires
        exact_on_wholes(num, whole, limit),
        summed_up(num, held, s),
        0 <= i < s.rows@.len(),
        whole((Number { bits: 0x4059_0000_0000_0000 })) == Some(100int),
        whole(s.rows@[i].shares) == Some(shares),
        whole(s.rows@[i].cost_basis) == Some(multiple(shares, average)),
        whole(s.rows@[i].current_price) == Some(multiple(average, k + 1)),
        shares > 0 && average > 0 && k >= 0,
        shares < limit && average < limit && 100 * k < limit,
        multiple(shares, multiple(average, k + 1)) < limit,
    ensures
        whole(s.rows@[i].avg_cost) == Some(average),
        whole(s.rows@[i].value) == Some(multiple(shares, multiple(average, k + 1))),
        whole(s.rows@[i].gain) == Some(multiple(shares, multiple(average, k))),
        whole(s.rows@[i].gain_pct) == Some(100 * k),
        whole(s.rows@[i].gain)->0 * 100 == whole(s.rows@[i].gain_pct)->0 * whole(
            s.rows@[i].cost_basis,
        )->0,
{
    let row = s.rows@[i];
    let at = lemma_row_is_valued(num, held, s, i);
    assert(whole(zero()) == Some(0int));
    let price = multiple(average, k + 1);
    let cost = multiple(shares, average);
    assert(price > 0 && price - average == average * k && 0 <= average * k < price && 0 < cost
        && shares * price - cost == shares * (average * k) && 0 <= shares * (average * k) <= shares
        * price && price <= shares * price && cost <= shares * price && shares * price > 0)
        by (nonlinear_arith)
        requires
            price == average * (k + 1),
            cost == shares * average,
            shares > 0,
            average > 0,
            k >= 0,
    ;
    assert(row.shares.above(Number { bits: 0 }));
    assert(row.current_price.above(Number { bits: 0 }));
    assert(call_ensures(N::over, (num, row.cost_basis, row.shares), row.avg_cost));
    assert(multiple(whole(row.shares)->0, average) == cost);
    assert(whole(row.avg_cost) == Some(average));
    assert(row.avg_cost.above(Number { bits: 0 }));
    percentages_are_of_a_hundred(num, row.current_price, row.avg_cost, row.gain_pct);
    let (d, q) = choose|d: Number, q: Number| #[trigger]
        call_ensures(N::minus, (num, row.current_price, row.avg_cost), d)
            && #[trigger] call_ensures(N::over, (num, d, row.avg_cost), q) && call_ensures(
            N::times,
            (num, q, Number { bits: 0x4059_0000_0000_0000 }),
            row.gain_pct,
        );
    assert(whole(d) == Some(average * k));
    assert(multiple(whole(row.avg_cost)->0, k) == average * k);
    assert(whole(q) == Some(k));
    assert((shares * (average * k)) * 100 == (100 * k) * cost) by (nonlinear_arith)
        requires
            cost == shares * average,
    ;
}

/// A chart shows what is cached of the ticker and what the ledger leaves in it:
/// its points, its price and its day as they are, a band of 20 closes and two
/// deviations for each point, and a holding exactly where one is held, valued at
/// that price.
pub proof fn charts_show_the_cache_and_the_ledger<N: Numerics>(
    num: &N,
    ticker: Seq<char>,
    snap: PriceSnapshot,
    ledger: Seq<TransactionRow>,
    h: TickerHistory,
)
    requires
        charted(num, ticker, snap, ledger, h),
    ensures
        h.ticker@ == ticker,
        h.current_price == snap.current_price,
        h.last_updated@ == snap.fetched_on@,
        h.points@ == snap.points@,
        h.bands@.len() == snap.points@.len(),
        forall|i: int|
            0 <= i < h.bands@.len() ==> band_at(
                num,
                Seq::new(snap.points@.len(), |k: int| snap.points@[k].close),
                i,
                20,
                (Number { bits: 0x4000_0000_0000_0000 }),
                #[trigger] h.bands@[i],
            ),
        exists|held: Seq<Holding>|
            {
                &&& #[trigger] reduced(num, ledger, held)
                &&& h.holding is None ==> forall|i: int|
                    0 <= i < held.len() ==> (#[trigger] held[i]).ticker@ != ticker
                &&& h.holding matches Some(row) ==> exists|i: int|
                    {
                        &&& 0 <= i < held.len()
                        &&& (#[trigger] held[i]).ticker@ == ticker
                        &&& row.ticker@ == ticker
                        &&& row.shares == held[i].position.shares
                        &&& row.cost_basis == held[i].position.cost_basis
                        &&& row.current_price == snap.current_price
                        &&& row.last_updated@ == snap.fetched_on@
                        &&& call_ensures(
                            N::over,
                            (num, row.cost_basis, row.shares),
                            row.avg_cost,
                        )
                        &&& call_ensures(
                            N::times,
                            (num, row.shares, row.current_price),
                            row.value,
                        )
                        &&& call_ensures(N::minus, (num, row.value, row.cost_basis), row.gain)
                        &&& if row.avg_cost.above(Number { bits: 0 }) {
                            percent_change(num, row.current_price, row.avg_cost, row.gain_pct)
                        } else {
                            row.gain_pct == (Number { bits: 0 })
                        }
                    }
            },
{
    assert(Seq::new(snap.points@.len(), |k: int| snap.points@[k].close) =~= closes(snap.points@));
    let held = choose|held: Seq<Holding>|
        {
            &&& #[trigger] reduced(num, ledger, held)
            &&& match h.holding {
                None => !listed(held, ticker),
                Some(row) => exists|i: int|
                    0 <= i < held.len() && (#[trigger] held[i]).ticker@ == ticker
                        && charted_holding(
                        num,
                        held[i],
                        snap.current_price,
                        snap.fetched_on@,
                        row,
                    ),
            }
        };
    assert(reduced(num, ledger, held));
    if h.holding is None {
        assert forall|i: int| 0 <= i < held.len() implies (#[trigger] held[i]).ticker@ != ticker by {
            if held[i].ticker@ == ticker {
                assert(listed(held, ticker));
            }
        }
    }
}

/// The laws on positions, summaries and charts hold of what is computed: of
/// whatever [`positions`], [`summary`] and [`history`] return.
pub proof fn laws_hold_of_what_is_computed<N: Numerics>(
    num: &N,
    ledger: &Vec<TransactionRow>,
    held: Vec<Holding>,
    quoted: &Vec<Quoted>,
    day: Option<String>,
    s: PortfolioSummary,
    ticker: &str,
    snap: Option<PriceSnapshot>,
    h: Option<TickerHistory>,
)
    ensures
        call_ensures(positions::<N>, (num, ledger), held) ==> reduced(num, ledger@, held@),
        call_ensures(summary::<N>, (num, quoted, day), s) ==> summed_up(num, quoted@, s)
            && s.last_refresh == day,
        call_ensures(history::<N>, (num, ticker, snap, ledger), h) ==> match snap {
            None => h is None,
            Some(cached) => h is Some && charted(num, ticker@, cached, ledger@, h->0),
        },
{
}

} // verus!
