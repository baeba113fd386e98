//! Numbers in writing, aligned in columns.

use vstd::prelude::*;

use crate::number::{fixed_as, signed_as, Number, Numerics};
use crate::text::{
    holds, lemma_holds_itself, lemma_padding_holds, lemma_parts_hold, pad_left,
    padding_adds_spaces_alone, push_right_aligned,
};

verus! {

/// How a number is written in a column: with so many decimal places, with or
/// without its sign, to the right of so many characters, and between two texts.
#[derive(Debug, Clone, Copy, PartialEq, Eq, Structural)]
pub struct Column {
    pub places: usize,
    pub signed: bool,
    pub width: usize,
}

/// `digits` is an outcome of writing a number for a column.
pub open spec fn digits_as<N: Numerics>(
    num: &N,
    n: Number,
    column: Column,
    digits: Seq<char>,
) -> bool {
    if column.signed {
        signed_as(num, n, column.places, digits)
    } else {
        fixed_as(num, n, column.places, digits)
    }
}

/// `text` is an outcome of writing a number in a column, `before` it and `after`
/// it what stands there.
pub open spec fn written_as<N: Numerics>(
    num: &N,
    n: Number,
    column: Column,
    before: Seq<char>,
    after: Seq<char>,
    text: Seq<char>,
) -> bool {
    exists|digits: Seq<char>| #[trigger]
        digits_as(num, n, column, digits) && text == before + pad_left(digits, column.width as nat)
            + after
}

/// Appends a number in a column.
pub fn push_number<N: Numerics>(num: &N, s: &mut String, n: Number, column: Column)
    ensures
        exists|digits: Seq<char>| #[trigger]
            digits_as(num, n, column, digits) && final(s)@ == old(s)@ + pad_left(
                digits,
                column.width as nat,
            ),
{
    let digits = if column.signed {
        num.fixed_signed(n, column.places)
    } else {
        num.fixed(n, column.places)
    };
    assert(digits_as(num, n, column, digits@));
    push_right_aligned(s, digits.as_str(), column.width);
}

/// A number in a column between two texts.
pub fn write_number<N: Numerics>(
    num: &N,
    n: Number,
    column: Column,
    before: &str,
    after: &str,
) -> (text: String)
    ensures
        written_as(num, n, column, before@, after@, text@),
{
    let mut text = before.to_owned();
    push_number(num, &mut text, n, column);
    text.append(after);
    text
}

/// A column of so many places, as wide as it takes.
pub open spec fn plain(places: usize) -> Column {
    Column { places, signed: false, width: 0 }
}

/// A column of so many places with the sign, as wide as it takes.
pub open spec fn with_sign(places: usize) -> Column {
    Column { places, signed: true, width: 0 }
}

/// A number with so many places between two texts.
pub fn write_plain<N: Numerics>(
    num: &N,
    n: Number,
    places: usize,
    before: &str,
    after: &str,
) -> (text: String)
    ensures
        written_as(num, n, plain(places), before@, after@, text@),
{
    write_number(num, n, Column { places, signed: false, width: 0 }, before, after)
}

/// A number with its sign and so many places between two texts.
pub fn write_signed<N: Numerics>(
    num: &N,
    n: Number,
    places: usize,
    before: &str,
    after: &str,
) -> (text: String)
    ensures
        written_as(num, n, with_sign(places), before@, after@, text@),
{
    write_number(num, n, Column { places, signed: true, width: 0 }, before, after)
}

/// Whether a text shows a number with so many places.
pub open spec fn shows<N: Numerics>(
    num: &N,
    text: Seq<char>,
    n: Number,
    places: usize,
) -> bool {
    exists|digits: Seq<char>| #[trigger] fixed_as(num, n, places, digits) && holds(text, digits)
}

/// Whether a text shows a number with its sign and so many places.
pub open spec fn shows_signed<N: Numerics>(
    num: &N,
    text: Seq<char>,
    n: Number,
    places: usize,
) -> bool {
    exists|digits: Seq<char>| #[trigger] signed_as(num, n, places, digits) && holds(text, digits)
}

/// What is written in a column shows the number it is written for, with the
/// places of the column, and with the sign where the column has it; it is as
/// wide as the column, or wider where the number takes more.
pub proof fn columns_show_their_numbers<N: Numerics>(
    num: &N,
    n: Number,
    column: Column,
    before: Seq<char>,
    after: Seq<char>,
    text: Seq<char>,
)
    requires
        written_as(num, n, column, before, after, text),
    ensures
        column.signed ==> shows_signed(num, text, n, column.places),
        !column.signed ==> shows(num, text, n, column.places),
        text.len() >= before.len() + column.width + after.len(),
        text.take(before.len() as int) == before,
        text.skip(text.len() - after.len()) == after,
{
    broadcast use {lemma_parts_hold, lemma_holds_itself, lemma_padding_holds};

    let digits = choose|digits: Seq<char>| #[trigger]
        digits_as(num, n, column, digits) && text == before + pad_left(digits, column.width as nat)
            + after;
    assert(holds(text, digits));
    if column.signed {
        assert(signed_as(num, n, column.places, digits));
    } else {
        assert(fixed_as(num, n, column.places, digits));
    }
    padding_adds_spaces_alone(digits, column.width as nat);
    assert(text.take(before.len() as int) =~= before);
    assert(text.skip(text.len() - after.len()) =~= after);
}

} // verus!
