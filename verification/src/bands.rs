//! Bollinger bands over a series of daily closes.

use vstd::prelude::*;

use crate::number::{
    counted, difference, exact_on_wholes, multiple, product, quotient, square_root, squared, sum,
    Number, Numerics, SIGN_BIT,
};
use crate::proto::BandPoint;

verus! {

/// `r` is an outcome of adding up `values` from the left, starting at `start`.
pub open spec fn total<N: Numerics>(num: &N, values: Seq<Number>, start: Number, r: Number) -> bool
    decreases values.len(),
{
    if values.len() == 0 {
        r == start
    } else {
        exists|m: Number|
            total(num, values.drop_last(), start, m) && #[trigger] sum(num, m, values.last(), r)
    }
}

/// `r` is an outcome of `(value - mean)` squared.
pub open spec fn squared_distance<N: Numerics>(
    num: &N,
    value: Number,
    mean: Number,
    r: Number,
) -> bool {
    exists|d: Number| #[trigger] difference(num, value, mean, d) && product(num, d, d, r)
}

/// `r` is an outcome of adding up, from the left and starting at `start`, the
/// squared distances of `values` from `mean`.
pub open spec fn total_spread<N: Numerics>(
    num: &N,
    values: Seq<Number>,
    mean: Number,
    start: Number,
    r: Number,
) -> bool
    decreases values.len(),
{
    if values.len() == 0 {
        r == start
    } else {
        exists|m: Number, p: Number|
            {
                &&& total_spread(num, values.drop_last(), mean, start, m)
                &&& squared_distance(num, values.last(), mean, p)
                &&& #[trigger] sum(num, m, p, r)
            }
    }
}

/// The zero that adding up starts from: the one that changes no number added
/// to it.
pub open spec fn neutral() -> Number {
    Number { bits: SIGN_BIT }
}

/// `mean` is an outcome of the mean of `values`, of which there are `n`.
pub open spec fn mean_of<N: Numerics>(num: &N, values: Seq<Number>, n: Number, mean: Number) -> bool {
    exists|t: Number| #[trigger] total(num, values, neutral(), t) && quotient(num, t, n, mean)
}

/// `std` is an outcome of the standard deviation of `values`, of which there
/// are `n`, around `mean`.
pub open spec fn deviation_of<N: Numerics>(
    num: &N,
    values: Seq<Number>,
    n: Number,
    mean: Number,
    std: Number,
) -> bool {
    exists|t: Number, v: Number|
        {
            &&& #[trigger] total_spread(num, values, mean, neutral(), t)
            &&& #[trigger] quotient(num, t, n, v)
            &&& square_root(num, v, std)
        }
}

/// `band` is an outcome of the band over `values`: their mean, and `n_std`
/// standard deviations above and below it.
pub open spec fn band_over<N: Numerics>(
    num: &N,
    values: Seq<Number>,
    window: usize,
    n_std: Number,
    band: BandPoint,
) -> bool {
    &&& band.sma is Some
    &&& band.upper is Some
    &&& band.lower is Some
    &&& exists|n: Number, std: Number, reach: Number|
        {
            &&& #[trigger] counted(num, window, n)
            &&& mean_of(num, values, n, band.sma->0)
            &&& deviation_of(num, values, n, band.sma->0, std)
            &&& #[trigger] product(num, n_std, std, reach)
            &&& sum(num, band.sma->0, reach, band.upper->0)
            &&& difference(num, band.sma->0, reach, band.lower->0)
        }
}

/// `band` is what belongs at index `i`: nothing while the window is not full,
/// then the band over the last `window` closes.
pub open spec fn band_at<N: Numerics>(
    num: &N,
    closes: Seq<Number>,
    i: int,
    window: usize,
    n_std: Number,
    band: BandPoint,
) -> bool {
    if i + 1 < window {
        band.sma is None && band.upper is None && band.lower is None
    } else {
        band_over(num, closes.subrange(i + 1 - window, i + 1), window, n_std, band)
    }
}

fn add_up<N: Numerics>(num: &N, closes: &[Number], from: usize, to: usize) -> (t: Number)
    requires
        from <= to <= closes@.len(),
    ensures
        total(num, closes@.subrange(from as int, to as int), neutral(), t),
{
    let mut t = Number::from_bits(SIGN_BIT);
    let mut i: usize = from;
    while i < to
        invariant
            from <= i <= to <= closes@.len(),
            total(num, closes@.subrange(from as int, i as int), neutral(), t),
        decreases to - i,
    {
        let ghost next = closes@.subrange(from as int, i + 1);
        assert(next.drop_last() =~= closes@.subrange(from as int, i as int));
        let before = t;
        assert(total(num, next.drop_last(), neutral(), before));
        t = num.plus(before, closes[i]);
        assert(sum(num, before, next.last(), t));
        assert(total(num, next, neutral(), t));
        i = i + 1;
    }
    t
}

fn add_up_spread<N: Numerics>(
    num: &N,
    closes: &[Number],
    from: usize,
    to: usize,
    mean: Number,
) -> (t: Number)
    requires
        from <= to <= closes@.len(),
    ensures
        total_spread(num, closes@.subrange(from as int, to as int), mean, neutral(), t),
{
    let mut t = Number::from_bits(SIGN_BIT);
    let mut i: usize = from;
    while i < to
        invariant
            from <= i <= to <= closes@.len(),
            total_spread(num, closes@.subrange(from as int, i as int), mean, neutral(), t),
        decreases to - i,
    {
        let ghost next = closes@.subrange(from as int, i + 1);
        assert(next.drop_last() =~= closes@.subrange(from as int, i as int));
        let d = num.minus(closes[i], mean);
        assert(difference(num, next.last(), mean, d));
        let p = num.times(d, d);
        assert(squared_distance(num, next.last(), mean, p));
        let before = t;
        assert(total_spread(num, next.drop_last(), mean, neutral(), before));
        t = num.plus(before, p);
        assert(sum(num, before, p, t));
        assert(total_spread(num, next, mean, neutral(), t));
        i = i + 1;
    }
    t
}

/// Bollinger bands: one [`BandPoint`] per close, over a moving window of
/// `window` closes, `n_std` standard deviations wide on either side.
pub fn bollinger_bands<N: Numerics>(
    num: &N,
    closes: &[Number],
    window: usize,
    n_std: Number,
) -> (bands: Vec<BandPoint>)
    ensures
        bands@.len() == closes@.len(),
        forall|i: int|
            0 <= i < bands@.len() ==> band_at(num, closes@, i, window, n_std, #[trigger] bands@[i]),
{
    let mut bands: Vec<BandPoint> = Vec::new();
    let mut i: usize = 0;
    let len: usize = closes.len();
    while i < len
        invariant
            i <= len,
            len == closes@.len(),
            bands@.len() == i,
            forall|j: int|
                0 <= j < i ==> band_at(num, closes@, j, window, n_std, #[trigger] bands@[j]),
        decreases len - i,
    {
        let band: BandPoint;
        if i + 1 < window {
            band = BandPoint { sma: None, upper: None, lower: None };
        } else {
            let from: usize = i + 1 - window;
            let ghost values = closes@.subrange(from as int, i + 1);
            let n = num.count(window);
            let t = add_up(num, closes, from, i + 1);
            let mean = num.over(t, n);
            assert(mean_of(num, values, n, mean));
            let s = add_up_spread(num, closes, from, i + 1, mean);
            let v = num.over(s, n);
            assert(quotient(num, s, n, v));
            let std = num.root(v);
            assert(deviation_of(num, values, n, mean, std));
            let reach = num.times(n_std, std);
            assert(product(num, n_std, std, reach));
            assert(counted(num, window, n));
            band =
            BandPoint {
                sma: Some(mean),
                upper: Some(num.plus(mean, reach)),
                lower: Some(num.minus(mean, reach)),
            };
            assert(band_over(num, values, window, n_std, band));
        }
        bands.push(band);
        i = i + 1;
    }
    bands
}

/// A band is present exactly from the index at which the window is full.
pub proof fn bands_start_when_the_window_is_full<N: Numerics>(
    num: &N,
    closes: Seq<Number>,
    i: int,
    window: usize,
    n_std: Number,
    band: BandPoint,
)
    requires
        0 <= i < closes.len(),
        band_at(num, closes, i, window, n_std, band),
    ensures
        band.sma is Some <==> i + 1 >= window,
        band.upper is Some <==> band.sma is Some,
        band.lower is Some <==> band.sma is Some,
{
}

/// No band looks at later closes: the bands of the first `k` closes are the
/// first `k` bands.
pub proof fn bands_look_back_only<N: Numerics>(
    num: &N,
    closes: Seq<Number>,
    k: int,
    i: int,
    window: usize,
    n_std: Number,
    band: BandPoint,
)
    requires
        0 <= i < k <= closes.len(),
    ensures
        band_at(num, closes, i, window, n_std, band) <==> band_at(
            num,
            closes.take(k),
            i,
            window,
            n_std,
            band,
        ),
{
    if i + 1 >= window {
        assert(closes.take(k).subrange(i + 1 - window, i + 1) =~= closes.subrange(
            i + 1 - window,
            i + 1,
        ));
    }
}

/// What is added up from the left passes through one number after another.
pub proof fn lemma_total_steps<N: Numerics>(
    num: &N,
    values: Seq<Number>,
    start: Number,
    r: Number,
) -> (sums: Seq<Number>)
    requires
        total(num, values, start, r),
    ensures
        sums.len() == values.len() + 1,
        sums[0] == start,
        sums.last() == r,
        forall|k: int|
            0 <= k < values.len() ==> call_ensures(
                N::plus,
                (num, sums[k], #[trigger] values[k]),
                sums[k + 1],
            ),
    decreases values.len(),
{
    if values.len() == 0 {
        seq![start]
    } else {
        let shorter = values.drop_last();
        let m = choose|m: Number|
            total(num, shorter, start, m) && #[trigger] sum(num, m, values.last(), r);
        let earlier = lemma_total_steps(num, shorter, start, m);
        let sums = earlier.push(r);
        assert forall|k: int| 0 <= k < values.len() implies call_ensures(
            N::plus,
            (num, sums[k], #[trigger] values[k]),
            sums[k + 1],
        ) by {
            if k < shorter.len() {
                assert(shorter[k] == values[k]);
            }
        }
        sums
    }
}

proof fn lemma_spread_steps<N: Numerics>(
    num: &N,
    values: Seq<Number>,
    mean: Number,
    start: Number,
    r: Number,
) -> (steps: (Seq<Number>, Seq<Number>, Seq<Number>))
    requires
        total_spread(num, values, mean, start, r),
    ensures
        steps.0.len() == values.len(),
        steps.1.len() == values.len(),
        steps.2.len() == values.len() + 1,
        steps.2[0] == start,
        steps.2.last() == r,
        forall|k: int|
            0 <= k < values.len() ==> {
                &&& call_ensures(N::minus, (num, #[trigger] values[k], mean), steps.0[k])
                &&& call_ensures(N::times, (num, steps.0[k], steps.0[k]), steps.1[k])
                &&& call_ensures(N::plus, (num, steps.2[k], steps.1[k]), steps.2[k + 1])
            },
    decreases values.len(),
{
    if values.len() == 0 {
        (seq![], seq![], seq![start])
    } else {
        let shorter = values.drop_last();
        let (m, p) = choose|m: Number, p: Number|
            {
                &&& total_spread(num, shorter, mean, start, m)
                &&& squared_distance(num, values.last(), mean, p)
                &&& #[trigger] sum(num, m, p, r)
            };
        let d = choose|d: Number| #[trigger]
            difference(num, values.last(), mean, d) && product(num, d, d, p);
        let earlier = lemma_spread_steps(num, shorter, mean, start, m);
        let steps = (earlier.0.push(d), earlier.1.push(p), earlier.2.push(r));
        assert forall|k: int| 0 <= k < values.len() implies {
            &&& call_ensures(N::minus, (num, #[trigger] values[k], mean), steps.0[k])
            &&& call_ensures(N::times, (num, steps.0[k], steps.0[k]), steps.1[k])
            &&& call_ensures(N::plus, (num, steps.2[k], steps.1[k]), steps.2[k + 1])
        } by {
            if k < shorter.len() {
                assert(shorter[k] == values[k]);
            }
        }
        steps
    }
}

/// Where there is a band, its middle is the mean of the last `window` closes,
/// and its edges are `n_std` times the square root of the mean of the closes'
/// squared distances from that, above and below. The sums start from a zero and
/// take in one close after another, oldest first.
pub proof fn bands_are_deviations_around_the_mean<N: Numerics>(
    num: &N,
    closes: Seq<Number>,
    i: int,
    window: usize,
    n_std: Number,
    band: BandPoint,
)
    requires
        0 <= i < closes.len(),
        i + 1 >= window,
        band_at(num, closes, i, window, n_std, band),
    ensures
        band.sma is Some && band.upper is Some && band.lower is Some,
        exists|
            n: Number,
            sums: Seq<Number>,
            distances: Seq<Number>,
            squares: Seq<Number>,
            spreads: Seq<Number>,
            variance: Number,
            deviation: Number,
            reach: Number,
        |
            #![trigger call_ensures(N::count, (num, window), n), sums.len(), distances.len(), squares.len(), spreads.len(), call_ensures(N::root, (num, variance), deviation), call_ensures(N::times, (num, n_std, deviation), reach)]
            {
                &&& call_ensures(N::count, (num, window), n)
                &&& sums.len() == window + 1
                &&& sums[0] == (Number { bits: 0x8000_0000_0000_0000 })
                &&& forall|k: int|
                    0 <= k < window ==> call_ensures(
                        N::plus,
                        (num, #[trigger] sums[k], closes[i + 1 - window + k]),
                        sums[k + 1],
                    )
                &&& call_ensures(N::over, (num, sums.last(), n), band.sma->0)
                &&& distances.len() == window
                &&& squares.len() == window
                &&& spreads.len() == window + 1
                &&& spreads[0] == (Number { bits: 0x8000_0000_0000_0000 })
                &&& forall|k: int|
                    0 <= k < window ==> {
                        &&& call_ensures(
                            N::minus,
                            (num, closes[i + 1 - window + k], band.sma->0),
                            #[trigger] distances[k],
                        )
                        &&& call_ensures(N::times, (num, distances[k], distances[k]), squares[k])
                        &&& call_ensures(N::plus, (num, spreads[k], squares[k]), spreads[k + 1])
                    }
                &&& call_ensures(N::over, (num, spreads.last(), n), variance)
                &&& call_ensures(N::root, (num, variance), deviation)
                &&& call_ensures(N::times, (num, n_std, deviation), reach)
                &&& call_ensures(N::plus, (num, band.sma->0, reach), band.upper->0)
                &&& call_ensures(N::minus, (num, band.sma->0, reach), band.lower->0)
            },
{
    let values = closes.subrange(i + 1 - window, i + 1);
    let mean = band.sma->0;
    let (n, std, reach) = choose|n: Number, std: Number, reach: Number|
        {
            &&& #[trigger] counted(num, window, n)
            &&& mean_of(num, values, n, mean)
            &&& deviation_of(num, values, n, mean, std)
            &&& #[trigger] product(num, n_std, std, reach)
            &&& sum(num, mean, reach, band.upper->0)
            &&& difference(num, mean, reach, band.lower->0)
        };
    let t = choose|t: Number| #[trigger]
        total(num, values, neutral(), t) && quotient(num, t, n, mean);
    let (s, v) = choose|s: Number, v: Number|
        {
            &&& #[trigger] total_spread(num, values, mean, neutral(), s)
            &&& #[trigger] quotient(num, s, n, v)
            &&& square_root(num, v, std)
        };
    let sums = lemma_total_steps(num, values, neutral(), t);
    let (distances, squares, spreads) = lemma_spread_steps(num, values, mean, neutral(), s);
    assert forall|k: int| 0 <= k < window implies call_ensures(
        N::plus,
        (num, #[trigger] sums[k], closes[i + 1 - window + k]),
        sums[k + 1],
    ) by {
        assert(values[k] == closes[i + 1 - window + k]);
    }
    assert forall|k: int| 0 <= k < window implies {
        &&& call_ensures(N::minus, (num, closes[i + 1 - window + k], mean), #[trigger] distances[k])
        &&& call_ensures(N::times, (num, distances[k], distances[k]), squares[k])
        &&& call_ensures(N::plus, (num, spreads[k], squares[k]), spreads[k + 1])
    } by {
        assert(values[k] == closes[i + 1 - window + k]);
    }
    assert(call_ensures(N::count, (num, window), n));
    assert(call_ensures(N::root, (num, v), std));
    assert(call_ensures(N::times, (num, n_std, std), reach));
    assert(sums.len() == window + 1 && distances.len() == window && squares.len() == window
        && spreads.len() == window + 1);
}

/// The sum of whole numbers.
pub open spec fn whole_sum(xs: Seq<int>) -> int
    decreases xs.len(),
{
    if xs.len() == 0 {
        0
    } else {
        whole_sum(xs.drop_last()) + xs.last()
    }
}

/// The sizes of whole numbers added up.
pub open spec fn whole_size(xs: Seq<int>) -> int
    decreases xs.len(),
{
    if xs.len() == 0 {
        0
    } else {
        whole_size(xs.drop_last()) + if xs.last() < 0 {
            -xs.last()
        } else {
            xs.last()
        }
    }
}

/// The squared distances of whole numbers from `m` added up.
pub open spec fn whole_spread(xs: Seq<int>, m: int) -> int
    decreases xs.len(),
{
    if xs.len() == 0 {
        0
    } else {
        whole_spread(xs.drop_last(), m) + squared(xs.last() - m)
    }
}

/// Whether the numbers stand for these whole ones.
pub open spec fn stand_for(
    whole: spec_fn(Number) -> Option<int>,
    values: Seq<Number>,
    xs: Seq<int>,
) -> bool {
    &&& values.len() == xs.len()
    &&& forall|k: int| 0 <= k < xs.len() ==> whole(#[trigger] values[k]) == Some(xs[k])
}

proof fn lemma_sum_within_size(xs: Seq<int>)
    ensures
        -whole_size(xs) <= whole_sum(xs) <= whole_size(xs),
        0 <= whole_size(xs),
    decreases xs.len(),
{
    if xs.len() > 0 {
        lemma_sum_within_size(xs.drop_last());
    }
}

proof fn lemma_spread_positive(xs: Seq<int>, m: int)
    ensures
        0 <= whole_spread(xs, m),
    decreases xs.len(),
{
    if xs.len() > 0 {
        lemma_spread_positive(xs.drop_last(), m);
        let d = xs.last() - m;
        assert(squared(d) >= 0) by (nonlinear_arith)
            requires
                squared(d) == d * d,
        ;
    }
}

/// Whole numbers are added up exactly.
pub proof fn lemma_total_of_wholes<N: Numerics>(
    num: &N,
    whole: spec_fn(Number) -> Option<int>,
    limit: int,
    values: Seq<Number>,
    xs: Seq<int>,
    start: Number,
    r: Number,
)
    requires
        exact_on_wholes(num, whole, limit),
        stand_for(whole, values, xs),
        whole(start) == Some(0int),
        whole_size(xs) < limit,
        total(num, values, start, r),
    ensures
        whole(r) == Some(whole_sum(xs)),
    decreases xs.len(),
{
    if xs.len() > 0 {
        let m = choose|m: Number|
            total(num, values.drop_last(), start, m) && #[trigger] sum(num, m, values.last(), r);
        lemma_sum_within_size(xs);
        lemma_total_of_wholes(num, whole, limit, values.drop_last(), xs.drop_last(), start, m);
        assert(whole(values[xs.len() - 1]) == Some(xs.last()));
        assert(call_ensures(N::plus, (num, m, values.last()), r));
    }
}

proof fn lemma_spread_of_wholes<N: Numerics>(
    num: &N,
    whole: spec_fn(Number) -> Option<int>,
    limit: int,
    values: Seq<Number>,
    xs: Seq<int>,
    mean: Number,
    m: int,
    start: Number,
    r: Number,
)
    requires
        exact_on_wholes(num, whole, limit),
        stand_for(whole, values, xs),
        whole(start) == Some(0int),
        whole(mean) == Some(m),
        whole_spread(xs, m) < limit,
        total_spread(num, values, mean, start, r),
    ensures
        whole(r) == Some(whole_spread(xs, m)),
    decreases xs.len(),
{
    if xs.len() > 0 {
        let (t, p) = choose|t: Number, p: Number|
            {
                &&& total_spread(num, values.drop_last(), mean, start, t)
                &&& squared_distance(num, values.last(), mean, p)
                &&& #[trigger] sum(num, t, p, r)
            };
        let d = choose|d: Number| #[trigger]
            difference(num, values.last(), mean, d) && product(num, d, d, p);
        let k = xs.last() - m;
        lemma_spread_positive(xs.drop_last(), m);
        assert(squared(k) >= 0 && -squared(k) <= k <= squared(k)) by (nonlinear_arith)
            requires
                squared(k) == k * k,
        ;
        lemma_spread_of_wholes(
            num,
            whole,
            limit,
            values.drop_last(),
            xs.drop_last(),
            mean,
            m,
            start,
            t,
        );
        assert(whole(values[xs.len() - 1]) == Some(xs.last()));
        assert(call_ensures(N::minus, (num, values.last(), mean), d));
        assert(call_ensures(N::times, (num, d, d), p));
        assert(call_ensures(N::plus, (num, t, p), r));
    }
}

/// What bands are, where the host computes without rounding. Take the last
/// `window` closes as whole numbers `xs` whose mean is `m`; let the mean of
/// their squared distances from `m` be the square of `dev`. The middle is `m`,
/// the edges lie `k` times `dev` from it: their distance squared, taken `window`
/// times, is the sum of the squared distances taken `k` squared times.
pub proof fn bands_of_whole_closes<N: Numerics>(
    num: &N,
    whole: spec_fn(Number) -> Option<int>,
    limit: int,
    closes: Seq<Number>,
    i: int,
    window: usize,
    n_std: Number,
    band: BandPoint,
    xs: Seq<int>,
    m: int,
    dev: int,
    k: int,
)
    requires
        exact_on_wholes(num, whole, limit),
        0 < window <= i + 1,
        0 <= i < closes.len(),
        band_at(num, closes, i, window, n_std, band),
        xs.len() == window,
        forall|j: int|
            0 <= j < window ==> whole(closes[i + 1 - window + j]) == Some(#[trigger] xs[j]),
        whole_sum(xs) == window * m,
        dev >= 0,
        whole_spread(xs, m) == window * squared(dev),
        whole(n_std) == Some(k),
        window < limit && whole_size(xs) < limit && whole_spread(xs, m) < limit,
        -limit < m - k * dev < limit && -limit < k * dev < limit && -limit < m + k * dev < limit,
    ensures
        band.sma is Some && band.upper is Some && band.lower is Some,
        whole(band.sma->0) == Some(m),
        whole(band.upper->0) == Some(m + k * dev),
        whole(band.lower->0) == Some(m - k * dev),
        squared(whole(band.upper->0)->0 - m) * window == squared(k) * whole_spread(xs, m),
        squared(whole(band.lower->0)->0 - m) * window == squared(k) * whole_spread(xs, m),
{
    let values = closes.subrange(i + 1 - window, i + 1);
    assert forall|j: int| 0 <= j < xs.len() implies whole(#[trigger] values[j]) == Some(xs[j]) by {
        assert(values[j] == closes[i + 1 - window + j]);
    }
    let mean = band.sma->0;
    let (n, std, reach) = choose|n: Number, std: Number, reach: Number|
        {
            &&& #[trigger] counted(num, window, n)
            &&& mean_of(num, values, n, mean)
            &&& deviation_of(num, values, n, mean, std)
            &&& #[trigger] product(num, n_std, std, reach)
            &&& sum(num, mean, reach, band.upper->0)
            &&& difference(num, mean, reach, band.lower->0)
        };
    let t = choose|t: Number| #[trigger]
        total(num, values, neutral(), t) && quotient(num, t, n, mean);
    let (s, v) = choose|s: Number, v: Number|
        {
            &&& #[trigger] total_spread(num, values, mean, neutral(), s)
            &&& #[trigger] quotient(num, s, n, v)
            &&& square_root(num, v, std)
        };
    assert(call_ensures(N::count, (num, window), n));
    lemma_total_of_wholes(num, whole, limit, values, xs, neutral(), t);
    lemma_sum_within_size(xs);
    assert(-limit < m < limit) by (nonlinear_arith)
        requires
            window >= 1,
            -limit < window * m < limit,
    ;
    assert(call_ensures(N::over, (num, t, n), mean));
    assert(multiple(whole(n)->0, m) == whole_sum(xs));
    lemma_spread_of_wholes(num, whole, limit, values, xs, mean, m, neutral(), s);
    lemma_spread_positive(xs, m);
    assert(-limit < squared(dev) < limit) by (nonlinear_arith)
        requires
            window >= 1,
            0 <= window * squared(dev) < limit,
    ;
    assert(call_ensures(N::over, (num, s, n), v));
    assert(multiple(whole(n)->0, squared(dev)) == whole_spread(xs, m));
    assert(call_ensures(N::root, (num, v), std));
    assert(call_ensures(N::times, (num, n_std, std), reach));
    assert(call_ensures(N::plus, (num, mean, reach), band.upper->0));
    assert(call_ensures(N::minus, (num, mean, reach), band.lower->0));
    let e = k * dev;
    assert(squared(e) * window == squared(k) * whole_spread(xs, m) && squared(-e) == squared(e))
        by (nonlinear_arith)
        requires
            e == k * dev,
            squared(e) == e * e,
            squared(-e) == (-e) * (-e),
            squared(k) == k * k,
            squared(dev) == dev * dev,
            whole_spread(xs, m) == window * squared(dev),
    ;
}

/// The laws on bands hold of what is computed: of every band that
/// [`bollinger_bands`] returns, one for each close.
pub proof fn laws_hold_of_the_bands<N: Numerics>(
    num: &N,
    closes: &[Number],
    window: usize,
    n_std: Number,
    bands: Vec<BandPoint>,
    i: int,
)
    requires
        call_ensures(bollinger_bands::<N>, (num, closes, window, n_std), bands),
    ensures
        bands@.len() == closes@.len(),
        0 <= i < closes@.len() ==> band_at(num, closes@, i, window, n_std, bands@[i]),
{
}

} // verus!
