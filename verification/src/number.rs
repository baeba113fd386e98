//! Quantities and prices.
//!
//! A [`Number`] is the bit pattern of an IEEE 754 double. How two of them
//! compare is decided here, on the bits. Arithmetic, and the way a number is
//! read and written, come from whoever implements [`Numerics`].

use vstd::prelude::*;

verus! {

/// The bit pattern of an IEEE 754 double.
#[derive(Clone, Copy, Debug, PartialEq, Eq, Structural)]
pub struct Number {
    pub bits: u64,
}

/// The bit that marks a negative number.
pub const SIGN_BIT: u64 = 0x8000_0000_0000_0000;

/// The bits of positive infinity; patterns above it, sign aside, are NaN.
pub const INFINITY_BITS: u64 = 0x7ff0_0000_0000_0000;

/// The bits of `1e-9`, the least holding that counts as one.
pub const DUST_BITS: u64 = 0x3e11_2e0b_e826_d695;

/// The bits of `1`.
pub const ONE_BITS: u64 = 0x3ff0_0000_0000_0000;

/// The bits of `2`.
pub const TWO_BITS: u64 = 0x4000_0000_0000_0000;

/// The bits of `100`.
pub const HUNDRED_BITS: u64 = 0x4059_0000_0000_0000;

impl Number {
    /// The number without its sign bit.
    pub open spec fn magnitude(self) -> int {
        if self.bits >= SIGN_BIT {
            self.bits - SIGN_BIT
        } else {
            self.bits as int
        }
    }

    /// Whether this is not a number.
    pub open spec fn nan(self) -> bool {
        self.magnitude() > INFINITY_BITS
    }

    /// Whether this is neither infinite nor NaN.
    pub open spec fn finite(self) -> bool {
        self.magnitude() < INFINITY_BITS
    }

    /// The place of a number among all that are not NaN. Both zeros have
    /// place 0.
    pub open spec fn place(self) -> int {
        if self.bits >= SIGN_BIT {
            -self.magnitude()
        } else {
            self.magnitude()
        }
    }

    /// Whether `self > other`. NaN compares with nothing.
    pub open spec fn above(self, other: Number) -> bool {
        !self.nan() && !other.nan() && self.place() > other.place()
    }

    /// Whether `self >= other`. NaN compares with nothing.
    pub open spec fn not_below(self, other: Number) -> bool {
        !self.nan() && !other.nan() && self.place() >= other.place()
    }

    /// The number with the opposite sign.
    pub open spec fn opposite(self) -> Number {
        if self.bits >= SIGN_BIT {
            Number { bits: (self.bits - SIGN_BIT) as u64 }
        } else {
            Number { bits: (self.bits + SIGN_BIT) as u64 }
        }
    }

    /// The number whose bits are `bits`.
    pub fn from_bits(bits: u64) -> (n: Number)
        ensures
            n == (Number { bits }),
    {
        Number { bits }
    }

    /// Zero.
    pub fn zero() -> (n: Number)
        ensures
            n == (Number { bits: 0 }),
    {
        Number { bits: 0 }
    }

    fn size(self) -> (m: u64)
        ensures
            m as int == self.magnitude(),
    {
        if self.bits >= SIGN_BIT {
            self.bits - SIGN_BIT
        } else {
            self.bits
        }
    }

    /// Whether this is not a number.
    pub fn is_nan(self) -> (b: bool)
        ensures
            b == self.nan(),
    {
        self.size() > INFINITY_BITS
    }

    /// Whether this is neither infinite nor NaN.
    pub fn is_finite(self) -> (b: bool)
        ensures
            b == self.finite(),
    {
        self.size() < INFINITY_BITS
    }

    /// `self >= other`.
    pub fn at_least(self, other: Number) -> (b: bool)
        ensures
            b == self.not_below(other),
    {
        if self.is_nan() || other.is_nan() {
            return false;
        }
        let a: u64 = self.size();
        let b: u64 = other.size();
        if self.bits >= SIGN_BIT {
            if other.bits >= SIGN_BIT {
                a <= b
            } else {
                a == 0 && b == 0
            }
        } else {
            if other.bits >= SIGN_BIT {
                true
            } else {
                a >= b
            }
        }
    }

    /// `self > other`.
    pub fn exceeds(self, other: Number) -> (b: bool)
        ensures
            b == self.above(other),
    {
        !self.is_nan() && !other.is_nan() && !other.at_least(self)
    }

    /// The number with the opposite sign.
    pub fn negated(self) -> (n: Number)
        ensures
            n == self.opposite(),
    {
        if self.bits >= SIGN_BIT {
            Number { bits: self.bits - SIGN_BIT }
        } else {
            Number { bits: self.bits + SIGN_BIT }
        }
    }

    /// The number, or zero where it is not above zero.
    pub open spec fn clipped(self) -> Number {
        if self.above(Number { bits: 0 }) {
            self
        } else {
            Number { bits: 0 }
        }
    }

    /// The number, or zero where it is not above zero.
    pub fn clip(self) -> (n: Number)
        ensures
            n == self.clipped(),
    {
        if self.exceeds(Number::zero()) {
            self
        } else {
            Number::zero()
        }
    }
}

/// Any two numbers that are not NaN compare, one way or the other.
pub proof fn numbers_compare(a: Number, b: Number)
    requires
        !a.nan(),
        !b.nan(),
    ensures
        a.not_below(b) || b.not_below(a),
        a.above(b) <==> !b.not_below(a),
{
}

/// NaN is above nothing and nothing is above it, not even itself.
pub proof fn nan_compares_with_nothing(a: Number, b: Number)
    requires
        a.nan(),
    ensures
        !a.above(b),
        !b.above(a),
        !a.not_below(b),
        !b.not_below(a),
{
}

/// Negation undoes itself, keeps a number finite and mirrors the order.
pub proof fn negation_mirrors(a: Number)
    ensures
        a.opposite().opposite() == a,
        a.opposite().finite() == a.finite(),
        a.opposite().nan() == a.nan(),
        a.opposite().place() == -a.place(),
{
}

/// What a host supplies: double arithmetic, and numbers read and written as
/// text. Nothing is promised of any of it.
pub trait Numerics {
    /// `a + b`.
    fn plus(&self, a: Number, b: Number) -> Number;

    /// `a - b`.
    fn minus(&self, a: Number, b: Number) -> Number;

    /// `a * b`.
    fn times(&self, a: Number, b: Number) -> Number;

    /// `a / b`.
    fn over(&self, a: Number, b: Number) -> Number;

    /// The square root of `a`.
    fn root(&self, a: Number) -> Number;

    /// The number nearest to `n`.
    fn count(&self, n: usize) -> Number;

    /// The whole number nearest to `a`, or the nearest bound of the type.
    fn nearest(&self, a: Number) -> usize;

    /// Reads a number.
    fn parse(&self, text: &str) -> Option<Number>;

    /// The shortest text that reads back as `a`.
    fn show(&self, a: Number) -> String;

    /// `a` with `places` decimal places.
    fn fixed(&self, a: Number, places: usize) -> String;

    /// `a` with a sign, whichever it has, and `places` decimal places.
    fn fixed_signed(&self, a: Number, places: usize) -> String;
}

/// `r` is an outcome of `a + b`.
pub open spec fn sum<N: Numerics>(num: &N, a: Number, b: Number, r: Number) -> bool {
    call_ensures(N::plus, (num, a, b), r)
}

/// `r` is an outcome of `a - b`.
pub open spec fn difference<N: Numerics>(num: &N, a: Number, b: Number, r: Number) -> bool {
    call_ensures(N::minus, (num, a, b), r)
}

/// `r` is an outcome of `a * b`.
pub open spec fn product<N: Numerics>(num: &N, a: Number, b: Number, r: Number) -> bool {
    call_ensures(N::times, (num, a, b), r)
}

/// `r` is an outcome of `a / b`.
pub open spec fn quotient<N: Numerics>(num: &N, a: Number, b: Number, r: Number) -> bool {
    call_ensures(N::over, (num, a, b), r)
}

/// `r` is an outcome of the square root of `a`.
pub open spec fn square_root<N: Numerics>(num: &N, a: Number, r: Number) -> bool {
    call_ensures(N::root, (num, a), r)
}

/// `r` is an outcome of reading `n` as a number.
pub open spec fn counted<N: Numerics>(num: &N, n: usize, r: Number) -> bool {
    call_ensures(N::count, (num, n), r)
}

/// `r` is an outcome of rounding `a` to a whole number.
pub open spec fn rounded<N: Numerics>(num: &N, a: Number, r: usize) -> bool {
    call_ensures(N::nearest, (num, a), r)
}

/// `r` is an outcome of reading `text`.
pub open spec fn read_as<N: Numerics>(num: &N, text: Seq<char>, r: Option<Number>) -> bool {
    exists|s: &str| s@ == text && #[trigger] call_ensures(N::parse, (num, s), r)
}

/// `text` is an outcome of writing `a`.
pub open spec fn shown_as<N: Numerics>(num: &N, a: Number, text: Seq<char>) -> bool {
    exists|s: String| s@ == text && #[trigger] call_ensures(N::show, (num, a), s)
}

/// `text` is an outcome of writing `a` with `places` decimal places.
pub open spec fn fixed_as<N: Numerics>(num: &N, a: Number, places: usize, text: Seq<char>) -> bool {
    exists|s: String| s@ == text && #[trigger] call_ensures(N::fixed, (num, a, places), s)
}

/// `text` is an outcome of writing `a` with a sign and `places` decimal places.
pub open spec fn signed_as<N: Numerics>(
    num: &N,
    a: Number,
    places: usize,
    text: Seq<char>,
) -> bool {
    exists|s: String| s@ == text && #[trigger] call_ensures(N::fixed_signed, (num, a, places), s)
}

/// `r` is an outcome of `(a - b) / b * 100`: how far `a` is from `b`, in
/// percent of `b`.
pub open spec fn percent_change<N: Numerics>(num: &N, a: Number, b: Number, r: Number) -> bool {
    exists|d: Number, q: Number|
        {
            &&& #[trigger] difference(num, a, b, d)
            &&& #[trigger] quotient(num, d, b, q)
            &&& product(num, q, Number { bits: HUNDRED_BITS }, r)
        }
}

/// `r` is an outcome of `a / b * 100`: `a` in percent of `b`.
pub open spec fn percent_of<N: Numerics>(num: &N, a: Number, b: Number, r: Number) -> bool {
    exists|q: Number|
        {
            &&& #[trigger] quotient(num, a, b, q)
            &&& product(num, q, Number { bits: HUNDRED_BITS }, r)
        }
}

/// How far `a` is from `b`, in percent of `b`.
pub fn change_in_percent<N: Numerics>(num: &N, a: Number, b: Number) -> (r: Number)
    ensures
        percent_change(num, a, b, r),
{
    let d = num.minus(a, b);
    let q = num.over(d, b);
    let r = num.times(q, Number::from_bits(HUNDRED_BITS));
    assert(difference(num, a, b, d));
    assert(quotient(num, d, b, q));
    r
}

/// `a` in percent of `b`.
pub fn in_percent<N: Numerics>(num: &N, a: Number, b: Number) -> (r: Number)
    ensures
        percent_of(num, a, b, r),
{
    let q = num.over(a, b);
    assert(quotient(num, a, b, q));
    num.times(q, Number::from_bits(HUNDRED_BITS))
}

/// The operations that contracts speak of are those of the host, each with its
/// operands in their order.
pub proof fn operations_are_those_of_the_host<N: Numerics>(
    num: &N,
    a: Number,
    b: Number,
    n: usize,
    r: Number,
)
    ensures
        sum(num, a, b, r) <==> call_ensures(N::plus, (num, a, b), r),
        difference(num, a, b, r) <==> call_ensures(N::minus, (num, a, b), r),
        product(num, a, b, r) <==> call_ensures(N::times, (num, a, b), r),
        quotient(num, a, b, r) <==> call_ensures(N::over, (num, a, b), r),
        square_root(num, a, r) <==> call_ensures(N::root, (num, a), r),
        counted(num, n, r) <==> call_ensures(N::count, (num, n), r),
{
}

/// So are reading and writing.
pub proof fn reading_and_writing_are_the_hosts<N: Numerics>(
    num: &N,
    a: Number,
    places: usize,
    text: Seq<char>,
    r: Option<Number>,
    n: usize,
)
    ensures
        read_as(num, text, r) <==> exists|s: &str| s@ == text && #[trigger]
            call_ensures(N::parse, (num, s), r),
        shown_as(num, a, text) <==> exists|s: String| s@ == text && #[trigger]
            call_ensures(N::show, (num, a), s),
        fixed_as(num, a, places, text) <==> exists|s: String| s@ == text && #[trigger]
            call_ensures(N::fixed, (num, a, places), s),
        signed_as(num, a, places, text) <==> exists|s: String| s@ == text && #[trigger]
            call_ensures(N::fixed_signed, (num, a, places), s),
        rounded(num, a, n) <==> call_ensures(N::nearest, (num, a), n),
{
}

/// A percentage is a quotient taken a hundred times: of a difference by what it
/// is measured against, or of a part by the whole.
pub proof fn percentages_are_of_a_hundred<N: Numerics>(num: &N, a: Number, b: Number, r: Number)
    ensures
        percent_change(num, a, b, r) <==> exists|d: Number, q: Number| #[trigger]
            call_ensures(N::minus, (num, a, b), d) && #[trigger] call_ensures(
                N::over,
                (num, d, b),
                q,
            ) && call_ensures(N::times, (num, q, (Number { bits: 0x4059_0000_0000_0000 })), r),
        percent_of(num, a, b, r) <==> exists|q: Number| #[trigger]
            call_ensures(N::over, (num, a, b), q) && call_ensures(
                N::times,
                (num, q, (Number { bits: 0x4059_0000_0000_0000 })),
                r,
            ),
{
    if percent_change(num, a, b, r) {
        let (d, q) = choose|d: Number, q: Number|
            {
                &&& #[trigger] difference(num, a, b, d)
                &&& #[trigger] quotient(num, d, b, q)
                &&& product(num, q, Number { bits: HUNDRED_BITS }, r)
            };
        assert(call_ensures(N::minus, (num, a, b), d) && call_ensures(N::over, (num, d, b), q));
    }
    if exists|d: Number, q: Number| #[trigger]
        call_ensures(N::minus, (num, a, b), d) && #[trigger] call_ensures(N::over, (num, d, b), q)
            && call_ensures(N::times, (num, q, Number { bits: 0x4059_0000_0000_0000 }), r) {
        let (d, q) = choose|d: Number, q: Number| #[trigger]
            call_ensures(N::minus, (num, a, b), d) && #[trigger] call_ensures(
                N::over,
                (num, d, b),
                q,
            ) && call_ensures(N::times, (num, q, Number { bits: 0x4059_0000_0000_0000 }), r);
        assert(difference(num, a, b, d));
        assert(quotient(num, d, b, q));
    }
    if percent_of(num, a, b, r) {
        let q = choose|q: Number|
            {
                &&& #[trigger] quotient(num, a, b, q)
                &&& product(num, q, Number { bits: HUNDRED_BITS }, r)
            };
        assert(call_ensures(N::over, (num, a, b), q));
    }
    if exists|q: Number| #[trigger]
        call_ensures(N::over, (num, a, b), q) && call_ensures(
            N::times,
            (num, q, Number { bits: 0x4059_0000_0000_0000 }),
            r,
        ) {
        let q = choose|q: Number| #[trigger]
            call_ensures(N::over, (num, a, b), q) && call_ensures(
                N::times,
                (num, q, Number { bits: 0x4059_0000_0000_0000 }),
                r,
            );
        assert(quotient(num, a, b, q));
    }
}

/// Numbers without a sign compare as their bits do, both zeros are equal, and a
/// negative number is below every one that is not.
pub proof fn order_goes_by_bits_and_sign(a: Number, b: Number)
    requires
        a.bits <= 0x7ff0_0000_0000_0000,
        b.bits <= 0x7ff0_0000_0000_0000,
    ensures
        a.above(b) <==> a.bits > b.bits,
        a.not_below(b) <==> a.bits >= b.bits,
        a.bits > 0 ==> b.above(a.opposite()),
        (Number { bits: 0x8000_0000_0000_0000 }).not_below((Number { bits: 0 })),
        !(Number { bits: 0 }).above((Number { bits: 0x8000_0000_0000_0000 })),
{
}

/// What is above zero stays as it is; all else, NaN too, becomes zero.
pub proof fn clipping_keeps_what_is_positive(a: Number)
    ensures
        a.clipped().not_below((Number { bits: 0 })),
        a.above((Number { bits: 0 })) ==> a.clipped() == a,
        !a.above((Number { bits: 0 })) ==> a.clipped() == (Number { bits: 0 }),
{
}

/// A multiple of a whole number.
pub open spec fn multiple(n: int, k: int) -> int {
    n * k
}

/// The square of a whole number.
pub open spec fn squared(k: int) -> int {
    k * k
}

/// Whether the host computes exactly among whole numbers. `whole` tells which
/// whole number, below `limit` in size, a number stands for, if any: where an
/// outcome is one again, the host finds it. Doubles do, up to 2 to the 52nd.
pub open spec fn exact_on_wholes<N: Numerics>(
    num: &N,
    whole: spec_fn(Number) -> Option<int>,
    limit: int,
) -> bool {
    &&& whole(Number { bits: 0 }) == Some(0int)
    &&& whole(Number { bits: 0x8000_0000_0000_0000 }) == Some(0int)
    &&& forall|a: Number, b: Number, r: Number| #[trigger]
        call_ensures(N::plus, (num, a, b), r) && whole(a) is Some && whole(b) is Some && -limit
            < whole(a)->0 + whole(b)->0 < limit ==> whole(r) == Some(whole(a)->0 + whole(b)->0)
    &&& forall|a: Number, b: Number, r: Number| #[trigger]
        call_ensures(N::minus, (num, a, b), r) && whole(a) is Some && whole(b) is Some && -limit
            < whole(a)->0 - whole(b)->0 < limit ==> whole(r) == Some(whole(a)->0 - whole(b)->0)
    &&& forall|a: Number, b: Number, r: Number| #[trigger]
        call_ensures(N::times, (num, a, b), r) && whole(a) is Some && whole(b) is Some && -limit
            < whole(a)->0 * whole(b)->0 < limit ==> whole(r) == Some(whole(a)->0 * whole(b)->0)
    &&& forall|a: Number, b: Number, r: Number, k: int|
        #![trigger call_ensures(N::over, (num, a, b), r), multiple(whole(b)->0, k)]
        call_ensures(N::over, (num, a, b), r) && whole(b) is Some && whole(b)->0 != 0 && whole(a)
            == Some(multiple(whole(b)->0, k)) && -limit < k < limit ==> whole(r) == Some(k)
    &&& forall|a: Number, r: Number, k: int|
        #![trigger call_ensures(N::root, (num, a), r), squared(k)]
        call_ensures(N::root, (num, a), r) && k >= 0 && whole(a) == Some(squared(k)) ==> whole(r)
            == Some(k)
    &&& forall|n: usize, r: Number| #[trigger]
        call_ensures(N::count, (num, n), r) && n < limit ==> whole(r) == Some(n as int)
    &&& forall|a: Number, b: Number|
        whole(a) is Some && whole(b) is Some ==> (#[trigger] a.above(b) <==> whole(a)->0 > whole(
            b,
        )->0)
}

} // verus!
