//! Operations on text, stated over sequences of characters.

use vstd::prelude::*;
use vstd::string::*;
use vstd::utf8::*;

verus! {

/// `String::push` appends one character.
pub assume_specification[ String::push ](s: &mut String, ch: char)
    ensures
        final(s)@ == old(s)@.push(ch),
;

/// `String::pop` removes the last character and returns it, or returns `None`
/// and leaves the text alone when it is empty.
pub assume_specification[ String::pop ](s: &mut String) -> (last: Option<char>)
    ensures
        old(s)@.len() == 0 ==> last is None && final(s)@ == old(s)@,
        old(s)@.len() > 0 ==> last == Some(old(s)@.last()) && final(s)@ == old(s)@.drop_last(),
;

/// The upper-case form of `text` under Unicode's mapping.
pub uninterp spec fn uppercase(text: Seq<char>) -> Seq<char>;

/// The upper-case form of an ASCII letter; any other character is itself.
pub open spec fn ascii_upper(c: char) -> char {
    if 'a' <= c <= 'z' {
        (c as u32 - 32) as char
    } else {
        c
    }
}

/// `str::to_uppercase` depends on its argument alone. On ASCII text it maps
/// `a` to `z` onto `A` to `Z` and leaves everything else as it is.
pub assume_specification[ str::to_uppercase ](s: &str) -> (upper: String)
    ensures
        upper@ == uppercase(s@),
        is_ascii_chars(s@) ==> upper@ == s@.map_values(|c: char| ascii_upper(c)),
;

/// The characters of `s`, in order.
pub fn to_chars(s: &str) -> (chars: Vec<char>)
    ensures
        chars@ == s@,
{
    let mut chars: Vec<char> = Vec::new();
    for c in it: s.chars()
        invariant
            chars@ == it.seq().take(it.index() as int),
            it.seq() == s@,
    {
        chars.push(c);
    }
    chars
}

/// The text made of `chars[from]` to `chars[to - 1]`.
pub fn from_chars(chars: &Vec<char>, from: usize, to: usize) -> (s: String)
    requires
        from <= to <= chars@.len(),
    ensures
        s@ == chars@.subrange(from as int, to as int),
{
    let mut s = String::new();
    let mut i: usize = from;
    while i < to
        invariant
            from <= i <= to <= chars@.len(),
            s@ == chars@.subrange(from as int, i as int),
        decreases to - i,
    {
        s.push(chars[i]);
        i = i + 1;
    }
    s
}

/// Whether two texts hold the same characters.
pub fn same(a: &str, b: &str) -> (equal: bool)
    ensures
        equal == (a@ == b@),
{
    let x = a.as_bytes();
    let y = b.as_bytes();
    proof {
        encode_utf8_decode_utf8(a@);
        encode_utf8_decode_utf8(b@);
    }
    if x.len() != y.len() {
        return false;
    }
    let mut i: usize = 0;
    while i < x.len()
        invariant
            i <= x@.len(),
            x@.len() == y@.len(),
            x@ == a.spec_bytes(),
            y@ == b.spec_bytes(),
            forall|j: int| 0 <= j < i ==> x@[j] == y@[j],
        decreases x@.len() - i,
    {
        if x[i] != y[i] {
            return false;
        }
        i = i + 1;
    }
    assert(x@ =~= y@);
    true
}

/// The characters with Unicode's `White_Space` property.
pub open spec fn whitespace(c: char) -> bool {
    let n = c as u32;
    ||| 0x9 <= n <= 0xd
    ||| n == 0x20
    ||| n == 0x85
    ||| n == 0xa0
    ||| n == 0x1680
    ||| 0x2000 <= n <= 0x200a
    ||| n == 0x2028
    ||| n == 0x2029
    ||| n == 0x202f
    ||| n == 0x205f
    ||| n == 0x3000
}

/// Whether `c` is white space.
pub fn is_whitespace(c: char) -> (b: bool)
    ensures
        b == whitespace(c),
{
    let n: u32 = c as u32;
    (0x9 <= n && n <= 0xd) || n == 0x20 || n == 0x85 || n == 0xa0 || n == 0x1680 || (0x2000 <= n
        && n <= 0x200a) || n == 0x2028 || n == 0x2029 || n == 0x202f || n == 0x205f || n == 0x3000
}

/// `text` without its leading white space.
pub open spec fn trim_start(text: Seq<char>) -> Seq<char>
    decreases text.len(),
{
    if text.len() > 0 && whitespace(text[0]) {
        trim_start(text.drop_first())
    } else {
        text
    }
}

/// `text` without its trailing white space.
pub open spec fn trim_end(text: Seq<char>) -> Seq<char>
    decreases text.len(),
{
    if text.len() > 0 && whitespace(text.last()) {
        trim_end(text.drop_last())
    } else {
        text
    }
}

/// `text` without white space at either end.
pub open spec fn trim(text: Seq<char>) -> Seq<char> {
    trim_end(trim_start(text))
}

/// The text without white space at either end.
pub fn trimmed(s: &str) -> (t: String)
    ensures
        t@ == trim(s@),
{
    let chars = to_chars(s);
    let mut from: usize = 0;
    assert(chars@.skip(0) =~= s@);
    while from < chars.len() && is_whitespace(chars[from])
        invariant
            from <= chars@.len(),
            trim_start(s@) == trim_start(chars@.skip(from as int)),
        decreases chars@.len() - from,
    {
        assert(chars@.skip(from as int).drop_first() =~= chars@.skip(from + 1));
        from = from + 1;
    }
    assert(trim_start(s@) == chars@.skip(from as int));
    let mut to: usize = chars.len();
    assert(chars@.subrange(from as int, to as int) =~= chars@.skip(from as int));
    while from < to && is_whitespace(chars[to - 1])
        invariant
            from <= to <= chars@.len(),
            trim(s@) == trim_end(chars@.subrange(from as int, to as int)),
        decreases to,
    {
        assert(chars@.subrange(from as int, to as int).drop_last() =~= chars@.subrange(
            from as int,
            to - 1,
        ));
        to = to - 1;
    }
    from_chars(&chars, from, to)
}

/// The text without trailing white space.
pub fn trimmed_end(s: &str) -> (t: String)
    ensures
        t@ == trim_end(s@),
{
    let chars = to_chars(s);
    let mut to: usize = chars.len();
    assert(chars@.subrange(0, to as int) =~= s@);
    while 0 < to && is_whitespace(chars[to - 1])
        invariant
            to <= chars@.len(),
            trim_end(s@) == trim_end(chars@.subrange(0, to as int)),
        decreases to,
    {
        assert(chars@.subrange(0, to as int).drop_last() =~= chars@.subrange(0, to - 1));
        to = to - 1;
    }
    from_chars(&chars, 0, to)
}

/// The digit that stands for `d`.
pub open spec fn digit(d: nat) -> char {
    (0x30 + d) as char
}

/// `n` in decimal, without leading zeros.
pub open spec fn decimal(n: nat) -> Seq<char>
    decreases n,
{
    if n < 10 {
        seq![digit(n)]
    } else {
        decimal(n / 10).push(digit(n % 10))
    }
}

/// `n` in decimal.
pub fn decimal_text(n: u64) -> (s: String)
    ensures
        s@ == decimal(n as nat),
    decreases n,
{
    let last: u8 = (n % 10) as u8;
    let ch: char = (0x30 + last) as char;
    if n < 10 {
        let mut s = String::new();
        s.push(ch);
        assert(s@ =~= seq![ch]);
        s
    } else {
        let mut s = decimal_text(n / 10);
        s.push(ch);
        s
    }
}

/// Whether every character is a decimal digit.
pub open spec fn all_digits(text: Seq<char>) -> bool {
    forall|i: int| 0 <= i < text.len() ==> '0' <= #[trigger] text[i] <= '9'
}

/// The number that a sequence of decimal digits stands for.
pub open spec fn digits_value(text: Seq<char>) -> nat
    decreases text.len(),
{
    if text.len() == 0 {
        0
    } else {
        10 * digits_value(text.drop_last()) + (text.last() as u32 - 0x30) as nat
    }
}

/// `text` without one leading plus sign.
pub open spec fn unsigned_part(text: Seq<char>) -> Seq<char> {
    if text.len() > 0 && text[0] == '+' {
        text.drop_first()
    } else {
        text
    }
}

/// What `text` stands for as an unsigned number: an optional plus sign, then
/// decimal digits and nothing else.
pub open spec fn numeral(text: Seq<char>) -> Option<nat> {
    let digits = unsigned_part(text);
    if digits.len() > 0 && all_digits(digits) {
        Some(digits_value(digits))
    } else {
        None
    }
}

/// Reads an unsigned number of at most `max`.
pub fn parse_number(s: &str, max: u64) -> (n: Option<u64>)
    ensures
        n is Some ==> numeral(s@) == Some(n->0 as nat) && n->0 <= max,
        n is None ==> numeral(s@) is None || numeral(s@)->0 > max,
{
    let chars = to_chars(s);
    let mut from: usize = 0;
    if chars.len() > 0 && chars[0] == '+' {
        from = 1;
        assert(chars@.skip(1) =~= s@.drop_first());
    } else {
        assert(chars@.skip(0) =~= s@);
    }
    let ghost digits = chars@.skip(from as int);
    assert(digits == unsigned_part(s@));
    if from == chars.len() {
        return None;
    }
    let mut value: u64 = 0;
    let mut over: bool = false;
    let mut i: usize = from;
    while i < chars.len()
        invariant
            from <= i <= chars@.len(),
            from < chars@.len(),
            digits == chars@.skip(from as int),
            digits == unsigned_part(s@),
            all_digits(digits.take(i - from)),
            !over ==> value as nat == digits_value(digits.take(i - from)) && value <= max,
            over ==> digits_value(digits.take(i - from)) > max,
        decreases chars@.len() - i,
    {
        let c: char = chars[i];
        assert(digits[i - from] == c);
        if c < '0' || c > '9' {
            assert(!all_digits(digits));
            return None;
        }
        assert(digits.take(i - from + 1).drop_last() =~= digits.take(i - from));
        assert(digits.take(i - from + 1).last() == c);
        assert(all_digits(digits.take(i - from + 1)));
        let d: u64 = (c as u32 - 0x30) as u64;
        if !over {
            if d > max || value > (max - d) / 10 {
                over = true;
            } else {
                value = value * 10 + d;
            }
        }
        i = i + 1;
    }
    assert(digits.take(chars@.len() - from) =~= digits);
    if over {
        None
    } else {
        Some(value)
    }
}

/// Where the first line feed stands, or the length when there is none.
pub open spec fn line_end(text: Seq<char>) -> int
    decreases text.len(),
{
    if text.len() == 0 || text[0] == '\n' {
        0
    } else {
        1 + line_end(text.drop_first())
    }
}

/// A line that ended in a line feed, without a carriage return before it.
pub open spec fn strip_return(line: Seq<char>) -> Seq<char> {
    if line.len() > 0 && line.last() == '\r' {
        line.drop_last()
    } else {
        line
    }
}

proof fn lemma_line_end_bounds(text: Seq<char>)
    ensures
        0 <= line_end(text) <= text.len(),
        line_end(text) < text.len() ==> text[line_end(text)] == '\n',
        forall|i: int| 0 <= i < line_end(text) ==> text[i] != '\n',
    decreases text.len(),
{
    if text.len() > 0 && text[0] != '\n' {
        lemma_line_end_bounds(text.drop_first());
        assert forall|i: int| 0 <= i < line_end(text) implies text[i] != '\n' by {
            if i > 0 {
                assert(text.drop_first()[i - 1] == text[i]);
            }
        }
    }
}

proof fn lemma_line_end_at(text: Seq<char>, end: int)
    requires
        0 <= end <= text.len(),
        end < text.len() ==> text[end] == '\n',
        forall|i: int| 0 <= i < end ==> text[i] != '\n',
    ensures
        line_end(text) == end,
{
    lemma_line_end_bounds(text);
}

/// The lines of `text`: what stands between line feeds, without the line
/// endings (`\n` or `\r\n`) and without an empty line after the last of them.
pub open spec fn lines(text: Seq<char>) -> Seq<Seq<char>>
    decreases text.len(),
    via lines_shrink
{
    let end = line_end(text);
    if text.len() == 0 {
        seq![]
    } else if end == text.len() {
        seq![text]
    } else {
        seq![strip_return(text.take(end))] + lines(text.skip(end + 1))
    }
}

#[via_fn]
proof fn lines_shrink(text: Seq<char>) {
    lemma_line_end_bounds(text);
}

/// The views of a list of texts.
pub open spec fn views(texts: Seq<String>) -> Seq<Seq<char>> {
    texts.map_values(|s: String| s@)
}

/// The lines of a text.
pub fn split_lines(s: &str) -> (out: Vec<String>)
    ensures
        views(out@) == lines(s@),
{
    let chars = to_chars(s);
    let mut out: Vec<String> = Vec::new();
    let mut from: usize = 0;
    let mut i: usize = 0;
    assert(chars@.skip(0) =~= s@);
    assert(views(out@) + lines(s@) =~= lines(s@));
    while i < chars.len()
        invariant
            from <= i <= chars@.len(),
            forall|j: int| from <= j < i ==> chars@[j] != '\n',
            views(out@) + lines(chars@.skip(from as int)) == lines(s@),
        decreases chars@.len() - i,
    {
        if chars[i] == '\n' {
            let ghost rest = chars@.skip(from as int);
            let mut to: usize = i;
            if from < i && chars[i - 1] == '\r' {
                to = i - 1;
            }
            let line = from_chars(&chars, from, to);
            proof {
                lemma_line_end_at(rest, i - from);
                assert(strip_return(rest.take(i - from)) =~= line@);
                assert(rest.skip(i - from + 1) =~= chars@.skip(i + 1));
                assert(lines(rest) == seq![line@] + lines(chars@.skip(i + 1)));
                assert(views(out@.push(line)) =~= views(out@).push(line@));
                assert(views(out@).push(line@) + lines(chars@.skip(i + 1)) =~= views(out@) + lines(
                    rest,
                ));
            }
            out.push(line);
            from = i + 1;
        }
        i = i + 1;
    }
    let ghost rest = chars@.skip(from as int);
    proof {
        lemma_line_end_at(rest, rest.len() as int);
    }
    if from < chars.len() {
        let line = from_chars(&chars, from, chars.len());
        proof {
            assert(line@ =~= rest);
            assert(views(out@.push(line)) =~= views(out@).push(line@));
            assert(views(out@).push(line@) =~= views(out@) + seq![rest]);
        }
        out.push(line);
    } else {
        assert(views(out@) + lines(rest) =~= views(out@));
    }
    out
}

/// How many characters stand before the first white space.
pub open spec fn field_end(text: Seq<char>) -> int
    decreases text.len(),
{
    if text.len() == 0 || whitespace(text[0]) {
        0
    } else {
        1 + field_end(text.drop_first())
    }
}

proof fn lemma_field_end_bounds(text: Seq<char>)
    ensures
        0 <= field_end(text) <= text.len(),
        text.len() > 0 && !whitespace(text[0]) ==> field_end(text) > 0,
        field_end(text) < text.len() ==> whitespace(text[field_end(text)]),
        forall|i: int| 0 <= i < field_end(text) ==> !whitespace(text[i]),
    decreases text.len(),
{
    if text.len() > 0 && !whitespace(text[0]) {
        lemma_field_end_bounds(text.drop_first());
        assert forall|i: int| 0 <= i < field_end(text) implies !whitespace(text[i]) by {
            if i > 0 {
                assert(text.drop_first()[i - 1] == text[i]);
            }
        }
    }
}

/// The runs of characters that white space separates.
pub open spec fn fields(text: Seq<char>) -> Seq<Seq<char>>
    decreases text.len(),
    via fields_shrink
{
    if text.len() == 0 {
        seq![]
    } else if whitespace(text[0]) {
        fields(text.drop_first())
    } else {
        seq![text.take(field_end(text))] + fields(text.skip(field_end(text)))
    }
}

#[via_fn]
proof fn fields_shrink(text: Seq<char>) {
    lemma_field_end_bounds(text);
}

/// The fields of a text.
pub fn split_fields(s: &str) -> (out: Vec<String>)
    ensures
        views(out@) == fields(s@),
{
    let chars = to_chars(s);
    let mut out: Vec<String> = Vec::new();
    let mut i: usize = 0;
    assert(chars@.skip(0) =~= s@);
    assert(views(out@) + fields(s@) =~= fields(s@));
    while i < chars.len()
        invariant
            i <= chars@.len(),
            views(out@) + fields(chars@.skip(i as int)) == fields(s@),
        decreases chars@.len() - i,
    {
        let ghost rest = chars@.skip(i as int);
        if is_whitespace(chars[i]) {
            assert(rest.drop_first() =~= chars@.skip(i + 1));
            i = i + 1;
        } else {
            let from: usize = i;
            while i < chars.len() && !is_whitespace(chars[i])
                invariant
                    from <= i <= chars@.len(),
                    forall|j: int| from <= j < i ==> !whitespace(chars@[j]),
                decreases chars@.len() - i,
            {
                i = i + 1;
            }
            let field = from_chars(&chars, from, i);
            proof {
                lemma_field_end_bounds(rest);
                let end = field_end(rest);
                if end < i - from {
                    assert(rest[end] == chars@[from + end]);
                } else if end > i - from {
                    assert(rest[i - from] == chars@[i as int]);
                }
                assert(rest.take(end) =~= field@);
                assert(rest.skip(end) =~= chars@.skip(i as int));
                assert(views(out@.push(field)) =~= views(out@).push(field@));
                assert(views(out@).push(field@) + fields(chars@.skip(i as int)) =~= views(out@)
                    + fields(rest));
            }
            out.push(field);
        }
    }
    assert(chars@.skip(i as int) =~= seq![]);
    assert(views(out@) + fields(chars@.skip(i as int)) =~= views(out@));
    out
}

/// Whether `text` begins with `prefix`.
pub open spec fn begins_with(text: Seq<char>, prefix: Seq<char>) -> bool {
    prefix.len() <= text.len() && text.take(prefix.len() as int) == prefix
}

/// Whether `part` stands in `text` at position `at`.
pub open spec fn stands_at(text: Seq<char>, part: Seq<char>, at: int) -> bool {
    0 <= at && at + part.len() <= text.len() && text.subrange(at, at + part.len()) == part
}

fn matches_at(text: &Vec<char>, part: &Vec<char>, at: usize) -> (b: bool)
    requires
        at <= text@.len(),
    ensures
        b == begins_with(text@.skip(at as int), part@),
{
    let len: usize = text.len();
    if part.len() > len - at {
        return false;
    }
    let mut i: usize = 0;
    while i < part.len()
        invariant
            i <= part@.len(),
            len == text@.len(),
            at + part@.len() <= len,
            forall|j: int| 0 <= j < i ==> text@[at + j] == part@[j],
        decreases part@.len() - i,
    {
        if text[at + i] != part[i] {
            assert(text@.skip(at as int).take(part@.len() as int)[i as int] != part@[i as int]);
            return false;
        }
        i = i + 1;
    }
    assert(text@.skip(at as int).take(part@.len() as int) =~= part@);
    true
}

/// Whether one text begins with another.
pub fn starts_with(s: &str, prefix: &str) -> (b: bool)
    ensures
        b == begins_with(s@, prefix@),
{
    let text = to_chars(s);
    let part = to_chars(prefix);
    assert(text@.skip(0) =~= s@);
    matches_at(&text, &part, 0)
}

/// `text` with every occurrence of `part`, taken from the left and without
/// overlap, replaced by `with`.
pub open spec fn replace(text: Seq<char>, part: Seq<char>, with: Seq<char>) -> Seq<char>
    decreases text.len(),
{
    if text.len() == 0 || part.len() == 0 {
        text
    } else if begins_with(text, part) {
        with + replace(text.skip(part.len() as int), part, with)
    } else {
        seq![text[0]] + replace(text.drop_first(), part, with)
    }
}

/// The text with every occurrence of a non-empty part replaced.
pub fn replaced(s: &str, part: &str, with: &str) -> (out: String)
    requires
        part@.len() > 0,
    ensures
        out@ == replace(s@, part@, with@),
{
    let text = to_chars(s);
    let key = to_chars(part);
    let mut out = String::new();
    let mut i: usize = 0;
    assert(text@.skip(0) =~= s@);
    assert(out@ + replace(s@, part@, with@) =~= replace(s@, part@, with@));
    while i < text.len()
        invariant
            i <= text@.len(),
            key@ == part@,
            part@.len() > 0,
            out@ + replace(text@.skip(i as int), part@, with@) == replace(s@, part@, with@),
        decreases text@.len() - i,
    {
        let ghost rest = text@.skip(i as int);
        let ghost before = out@;
        if matches_at(&text, &key, i) {
            out.append(with);
            proof {
                assert(rest.skip(part@.len() as int) =~= text@.skip(i + part@.len()));
                assert(out@ + replace(text@.skip(i + part@.len()), part@, with@) =~= before
                    + replace(rest, part@, with@));
            }
            i = i + key.len();
        } else {
            let c: char = text[i];
            out.push(c);
            proof {
                assert(rest.drop_first() =~= text@.skip(i + 1));
                assert(out@ + replace(text@.skip(i + 1), part@, with@) =~= before + replace(
                    rest,
                    part@,
                    with@,
                ));
            }
            i = i + 1;
        }
    }
    assert(text@.skip(i as int) =~= seq![]);
    assert(out@ + replace(text@.skip(i as int), part@, with@) =~= out@);
    out
}

/// Whether `part` stands anywhere in `text`.
pub open spec fn holds(text: Seq<char>, part: Seq<char>) -> bool {
    exists|at: int| #[trigger] stands_at(text, part, at)
}

/// Whether no occurrence of `part` can share a character with an occurrence of
/// `mark`, whatever stands around them: neither holds the other, and neither
/// ends as the other begins.
pub open spec fn apart(part: Seq<char>, mark: Seq<char>) -> bool {
    &&& !holds(part, mark)
    &&& !holds(mark, part)
    &&& forall|k: int|
        0 < k <= part.len() && k <= mark.len() ==> #[trigger] part.skip(part.len() - k)
            != mark.take(k)
    &&& forall|k: int|
        0 < k <= part.len() && k <= mark.len() ==> #[trigger] part.take(k) != mark.skip(
            mark.len() - k,
        )
}

/// Where the outcome of a replacement begins as the part ends, so did the text.
proof fn lemma_tail_was_there(text: Seq<char>, part: Seq<char>, mark: Seq<char>, j: int)
    requires
        part.len() > 0,
        mark.len() > 0,
        0 < j <= part.len(),
        apart(part, mark),
        begins_with(replace(text, part, mark), part.skip(j)),
    ensures
        begins_with(text, part.skip(j)),
    decreases text.len(),
{
    let tail = part.skip(j);
    let out = replace(text, part, mark);
    if tail.len() == 0 {
        assert(text.take(0) =~= tail);
    } else if text.len() == 0 {
    } else if begins_with(text, part) {
        assert(out.take(tail.len() as int) == tail);
        if tail.len() <= mark.len() {
            let k = tail.len() as int;
            assert(part.skip(part.len() - k) =~= mark.take(k)) by {
                assert forall|i: int| 0 <= i < k implies part.skip(j)[i] == mark[i] by {
                    assert(out.take(k)[i] == out[i]);
                }
            }
        } else {
            assert(stands_at(part, mark, j)) by {
                assert(part.subrange(j, j + mark.len()) =~= mark) by {
                    assert forall|i: int| 0 <= i < mark.len() implies part[j + i] == mark[i] by {
                        assert(out.take(tail.len() as int)[i] == out[i]);
                        assert(tail[i] == part[j + i]);
                    }
                }
            }
        }
    } else {
        let rest = replace(text.drop_first(), part, mark);
        let shorter = part.skip(j + 1);
        assert(out.take(tail.len() as int)[0] == tail[0]);
        assert(begins_with(rest, shorter)) by {
            assert(rest.take(shorter.len() as int) =~= shorter) by {
                assert forall|i: int| 0 <= i < shorter.len() implies rest[i] == shorter[i] by {
                    assert(out.take(tail.len() as int)[i + 1] == tail[i + 1]);
                }
            }
        }
        lemma_tail_was_there(text.drop_first(), part, mark, j + 1);
        assert(text.take(tail.len() as int) =~= tail) by {
            assert forall|i: int| 0 <= i < tail.len() implies text[i] == tail[i] by {
                if i > 0 {
                    assert(text.drop_first().take(shorter.len() as int)[i - 1] == shorter[i - 1]);
                }
            }
        }
    }
}

/// Replacing every occurrence of a part by a mark that stays clear of it leaves
/// no occurrence, not even one that the replacement itself put together.
pub proof fn replacing_leaves_none(text: Seq<char>, part: Seq<char>, mark: Seq<char>)
    requires
        part.len() > 0,
        mark.len() > 0,
        apart(part, mark),
    ensures
        !holds(replace(text, part, mark), part),
    decreases text.len(),
{
    let out = replace(text, part, mark);
    if holds(out, part) {
        let at = choose|at: int| #[trigger] stands_at(out, part, at);
        if text.len() == 0 {
        } else if begins_with(text, part) {
            let rest = replace(text.skip(part.len() as int), part, mark);
            replacing_leaves_none(text.skip(part.len() as int), part, mark);
            if at >= mark.len() {
                assert(stands_at(rest, part, at - mark.len())) by {
                    assert(rest.subrange(at - mark.len(), at - mark.len() + part.len()) =~= part)
                        by {
                        assert forall|i: int| 0 <= i < part.len() implies rest[at - mark.len() + i]
                            == part[i] by {
                            assert(out.subrange(at, at + part.len())[i] == out[at + i]);
                        }
                    }
                }
            } else if at + part.len() <= mark.len() {
                assert(stands_at(mark, part, at)) by {
                    assert(mark.subrange(at, at + part.len()) =~= part) by {
                        assert forall|i: int| 0 <= i < part.len() implies mark[at + i]
                            == part[i] by {
                            assert(out.subrange(at, at + part.len())[i] == out[at + i]);
                        }
                    }
                }
            } else {
                let k = mark.len() - at;
                assert(part.take(k) =~= mark.skip(mark.len() - k)) by {
                    assert forall|i: int| 0 <= i < k implies part[i] == mark[at + i] by {
                        assert(out.subrange(at, at + part.len())[i] == out[at + i]);
                    }
                }
            }
        } else {
            let rest = replace(text.drop_first(), part, mark);
            replacing_leaves_none(text.drop_first(), part, mark);
            if at > 0 {
                assert(stands_at(rest, part, at - 1)) by {
                    assert(rest.subrange(at - 1, at - 1 + part.len()) =~= part) by {
                        assert forall|i: int| 0 <= i < part.len() implies rest[at - 1 + i]
                            == part[i] by {
                            assert(out.subrange(at, at + part.len())[i] == out[at + i]);
                        }
                    }
                }
            } else {
                let tail = part.skip(1);
                assert(begins_with(rest, tail)) by {
                    assert(rest.take(tail.len() as int) =~= tail) by {
                        assert forall|i: int| 0 <= i < tail.len() implies rest[i] == tail[i] by {
                            assert(out.subrange(0, part.len() as int)[i + 1] == out[i + 1]);
                        }
                    }
                }
                lemma_tail_was_there(text.drop_first(), part, mark, 1);
                assert(text.take(part.len() as int) =~= part) by {
                    assert forall|i: int| 0 <= i < part.len() implies text[i] == part[i] by {
                        if i > 0 {
                            assert(text.drop_first().take(tail.len() as int)[i - 1] == tail[i - 1]);
                        } else {
                            assert(out.subrange(0, part.len() as int)[0] == out[0]);
                        }
                    }
                }
            }
        }
    }
}

/// Where a part does not stand, there is nothing to replace: the text stays as
/// it is.
pub proof fn replacing_nothing_changes_nothing(text: Seq<char>, part: Seq<char>, with: Seq<char>)
    requires
        part.len() == 0 || !holds(text, part),
    ensures
        replace(text, part, with) == text,
    decreases text.len(),
{
    if text.len() > 0 && part.len() > 0 {
        if begins_with(text, part) {
            assert(text.subrange(0, part.len() as int) =~= text.take(part.len() as int));
            assert(stands_at(text, part, 0));
        }
        let rest = text.drop_first();
        assert forall|at: int| !#[trigger] stands_at(rest, part, at) by {
            if stands_at(rest, part, at) {
                assert(text.subrange(at + 1, at + 1 + part.len()) =~= rest.subrange(
                    at,
                    at + part.len(),
                ));
                assert(stands_at(text, part, at + 1));
            }
        }
        replacing_nothing_changes_nothing(rest, part, with);
        assert(seq![text[0]] + rest =~= text);
    }
}

/// `parts` with `separator` between neighbours.
pub open spec fn join(parts: Seq<Seq<char>>, separator: Seq<char>) -> Seq<char>
    decreases parts.len(),
{
    if parts.len() == 0 {
        seq![]
    } else if parts.len() == 1 {
        parts[0]
    } else {
        join(parts.drop_last(), separator) + separator + parts.last()
    }
}

/// The texts with a separator between neighbours.
pub fn joined(parts: &Vec<String>, separator: &str) -> (out: String)
    ensures
        out@ == join(views(parts@), separator@),
{
    let mut out = String::new();
    let mut i: usize = 0;
    while i < parts.len()
        invariant
            i <= parts@.len(),
            out@ == join(views(parts@).take(i as int), separator@),
        decreases parts@.len() - i,
    {
        let ghost next = views(parts@).take(i + 1);
        assert(next.drop_last() =~= views(parts@).take(i as int));
        assert(next.last() == parts@[i as int]@);
        if i > 0 {
            out.append(separator);
        }
        out.append(parts[i].as_str());
        assert(out@ =~= join(next, separator@));
        i = i + 1;
    }
    assert(views(parts@).take(i as int) =~= views(parts@));
    out
}

/// `n` copies of `c`.
pub open spec fn run(c: char, n: nat) -> Seq<char> {
    Seq::new(n, |i: int| c)
}

/// Appends `n` copies of a character.
pub fn push_run(s: &mut String, c: char, n: usize)
    ensures
        final(s)@ == old(s)@ + run(c, n as nat),
{
    let mut i: usize = 0;
    assert(s@ =~= old(s)@ + run(c, 0));
    while i < n
        invariant
            i <= n,
            s@ == old(s)@ + run(c, i as nat),
        decreases n - i,
    {
        s.push(c);
        assert(s@ =~= old(s)@ + run(c, (i + 1) as nat));
        i = i + 1;
    }
}

/// `text` padded on the right with spaces to `width` characters.
pub open spec fn pad_right(text: Seq<char>, width: nat) -> Seq<char> {
    if text.len() < width {
        text + run(' ', (width - text.len()) as nat)
    } else {
        text
    }
}

/// `text` padded on the left with spaces to `width` characters.
pub open spec fn pad_left(text: Seq<char>, width: nat) -> Seq<char> {
    if text.len() < width {
        run(' ', (width - text.len()) as nat) + text
    } else {
        text
    }
}

/// Appends a text, padded on the right.
pub fn push_left_aligned(s: &mut String, text: &str, width: usize)
    ensures
        final(s)@ == old(s)@ + pad_right(text@, width as nat),
{
    let len: usize = text.unicode_len();
    s.append(text);
    if len < width {
        push_run(s, ' ', width - len);
        assert(s@ =~= old(s)@ + pad_right(text@, width as nat));
    }
}

/// Appends a text, padded on the left.
pub fn push_right_aligned(s: &mut String, text: &str, width: usize)
    ensures
        final(s)@ == old(s)@ + pad_left(text@, width as nat),
{
    let len: usize = text.unicode_len();
    if len < width {
        push_run(s, ' ', width - len);
    }
    s.append(text);
    assert(s@ =~= old(s)@ + pad_left(text@, width as nat));
}

/// `text` as a quoted and escaped string literal.
pub uninterp spec fn quote(text: Seq<char>) -> Seq<char>;

/// `str`'s `Debug` form, as `format!` with `{:?}` writes it, depends on the
/// text alone.
#[verifier::external_body]
pub(crate) fn quoted(s: &str) -> (q: String)
    ensures
        q@ == quote(s@),
{
    format!("{s:?}")
}

/// Whether two texts are the same when ASCII letters of either case count as
/// one.
pub fn same_ignoring_case(a: &str, b: &str) -> (equal: bool)
    ensures
        equal == (a@.map_values(|c: char| ascii_upper(c)) == b@.map_values(
            |c: char| ascii_upper(c),
        )),
{
    let x = to_chars(a);
    let y = to_chars(b);
    let ghost up = |c: char| ascii_upper(c);
    if x.len() != y.len() {
        assert(a@.map_values(up).len() != b@.map_values(up).len());
        return false;
    }
    let mut i: usize = 0;
    while i < x.len()
        invariant
            i <= x@.len(),
            x@.len() == y@.len(),
            x@ == a@,
            y@ == b@,
            up == (|c: char| ascii_upper(c)),
            forall|j: int| 0 <= j < i ==> ascii_upper(x@[j]) == ascii_upper(y@[j]),
        decreases x@.len() - i,
    {
        if to_ascii_upper(x[i]) != to_ascii_upper(y[i]) {
            assert(a@.map_values(up)[i as int] != b@.map_values(up)[i as int]);
            return false;
        }
        i = i + 1;
    }
    assert(a@.map_values(up) =~= b@.map_values(up));
    true
}

/// The upper-case form of an ASCII letter; any other character is itself.
pub fn to_ascii_upper(c: char) -> (u: char)
    ensures
        u == ascii_upper(c),
{
    if 'a' <= c && c <= 'z' {
        let n: u8 = c as u8;
        (n - 32) as char
    } else {
        c
    }
}

/// Lexicographic order of byte sequences.
pub open spec fn bytes_before(a: Seq<u8>, b: Seq<u8>) -> bool
    decreases a.len(),
{
    if b.len() == 0 {
        false
    } else if a.len() == 0 {
        true
    } else if a[0] != b[0] {
        a[0] < b[0]
    } else {
        bytes_before(a.drop_first(), b.drop_first())
    }
}

/// Whether text `a` sorts before text `b`: lexicographically by UTF-8 bytes.
pub open spec fn before(a: Seq<char>, b: Seq<char>) -> bool {
    bytes_before(encode_utf8(a), encode_utf8(b))
}

/// Whether one text sorts before another.
pub fn sorts_before(a: &str, b: &str) -> (r: bool)
    ensures
        r == before(a@, b@),
{
    let x = a.as_bytes();
    let y = b.as_bytes();
    let mut i: usize = 0;
    assert(x@.skip(0) =~= x@);
    assert(y@.skip(0) =~= y@);
    while i < x.len() && i < y.len()
        invariant
            i <= x@.len(),
            i <= y@.len(),
            x@ == encode_utf8(a@),
            y@ == encode_utf8(b@),
            bytes_before(x@, y@) == bytes_before(x@.skip(i as int), y@.skip(i as int)),
        decreases x@.len() - i,
    {
        if x[i] != y[i] {
            return x[i] < y[i];
        }
        assert(x@.skip(i as int).drop_first() =~= x@.skip(i + 1));
        assert(y@.skip(i as int).drop_first() =~= y@.skip(i + 1));
        i = i + 1;
    }
    i < y.len()
}

/// How many bytes UTF-8 spends on a character.
pub open spec fn width(c: char) -> nat {
    encode_scalar(c as u32).len()
}

/// How many characters of `text`, from its start, fit in `room` bytes.
pub open spec fn fitting(text: Seq<char>, room: int) -> nat
    decreases text.len(),
{
    if text.len() == 0 || width(text[0]) > room {
        0
    } else {
        1 + fitting(text.drop_first(), room - width(text[0]))
    }
}

/// `text` if its UTF-8 form has at most `n` bytes; otherwise as many whole
/// characters of it as fit in `n` bytes, and an ellipsis.
pub open spec fn shorten(text: Seq<char>, n: nat) -> Seq<char> {
    if encode_utf8(text).len() <= n {
        text
    } else {
        text.take(fitting(text, n as int) as int) + "…"@
    }
}

/// What fits is no more than there is, and takes no more than the room.
pub proof fn lemma_fitting_bounds(text: Seq<char>, room: int)
    ensures
        fitting(text, room) <= text.len(),
        room >= 0 ==> encode_utf8(text.take(fitting(text, room) as int)).len() <= room,
    decreases text.len(),
{
    if text.len() == 0 || width(text[0]) > room {
        assert(text.take(0) =~= seq![]);
    } else {
        let rest = text.drop_first();
        lemma_fitting_bounds(rest, room - width(text[0]));
        let head = text.take(fitting(text, room) as int);
        assert(head.drop_first() =~= rest.take(fitting(rest, room - width(text[0])) as int));
        assert(head[0] == text[0]);
    }
}

fn char_width(c: char) -> (n: usize)
    ensures
        n == width(c),
        1 <= n <= 4,
{
    proof {
        char_is_scalar(c);
    }
    let v: u32 = c as u32;
    if v <= 0x7f {
        1
    } else if v <= 0x7ff {
        2
    } else if v <= 0xffff {
        3
    } else {
        4
    }
}

/// Trims a text for a message, without cutting through a character.
pub fn truncate(s: &str, n: usize) -> (out: String)
    ensures
        out@ == shorten(s@, n as nat),
{
    if s.as_bytes().len() <= n {
        return s.to_owned();
    }
    let chars = to_chars(s);
    let mut room: usize = n;
    let mut i: usize = 0;
    assert(chars@.skip(0) =~= s@);
    while i < chars.len() && char_width(chars[i]) <= room
        invariant
            i <= chars@.len(),
            i + fitting(chars@.skip(i as int), room as int) == fitting(s@, n as int),
        decreases chars@.len() - i,
    {
        room = room - char_width(chars[i]);
        assert(chars@.skip(i as int).drop_first() =~= chars@.skip(i + 1));
        i = i + 1;
    }
    let mut out = from_chars(&chars, 0, i);
    assert(out@ =~= s@.take(fitting(s@, n as int) as int));
    out.append("…");
    out
}

/// A shortened text takes at most the bytes it was given room for, plus the
/// three of the ellipsis.
pub proof fn shortened_text_is_bounded(text: Seq<char>, n: nat)
    ensures
        encode_utf8(shorten(text, n)).len() <= n + 3,
{
    if encode_utf8(text).len() > n {
        lemma_fitting_bounds(text, n as int);
        let head = text.take(fitting(text, n as int) as int);
        reveal_strlit("…");
        lemma_encode_append(head, "…"@);
        assert("…"@ =~= seq!['…']);
        assert("…"@.drop_first() =~= seq![]);
        assert(encode_utf8("…"@) == encode_scalar('…' as u32) + encode_utf8("…"@.drop_first()));
    }
}

/// The UTF-8 form of a concatenation is the concatenation of the UTF-8 forms.
pub proof fn lemma_encode_append(a: Seq<char>, b: Seq<char>)
    ensures
        encode_utf8(a + b) == encode_utf8(a) + encode_utf8(b),
    decreases a.len(),
{
    if a.len() == 0 {
        assert(a + b =~= b);
    } else {
        assert((a + b).drop_first() =~= a.drop_first() + b);
        lemma_encode_append(a.drop_first(), b);
        assert(encode_utf8(a + b) =~= encode_utf8(a) + encode_utf8(b));
    }
}

proof fn lemma_bytes_order(a: Seq<u8>, b: Seq<u8>)
    ensures
        !bytes_before(a, a),
        bytes_before(a, b) ==> !bytes_before(b, a),
        a != b ==> bytes_before(a, b) || bytes_before(b, a),
    decreases a.len(),
{
    if a.len() > 0 && b.len() > 0 {
        lemma_bytes_order(a.drop_first(), b.drop_first());
        lemma_bytes_order(a.drop_first(), a.drop_first());
        if a[0] == b[0] && a.drop_first() == b.drop_first() {
            assert(a =~= seq![a[0]] + a.drop_first());
            assert(b =~= seq![b[0]] + b.drop_first());
        }
    } else if a.len() > 0 {
        lemma_bytes_order(a.drop_first(), a.drop_first());
    } else {
        assert(b.len() == 0 ==> a =~= b);
    }
}

proof fn lemma_bytes_transitive(a: Seq<u8>, b: Seq<u8>, c: Seq<u8>)
    requires
        bytes_before(a, b),
        bytes_before(b, c),
    ensures
        bytes_before(a, c),
    decreases a.len(),
{
    if a.len() > 0 && a[0] == b[0] && b[0] == c[0] {
        lemma_bytes_transitive(a.drop_first(), b.drop_first(), c.drop_first());
    }
}

/// The order of texts is strict and total: of two different texts exactly one
/// sorts before the other.
pub proof fn text_order_is_total(a: Seq<char>, b: Seq<char>)
    ensures
        !before(a, a),
        before(a, b) ==> !before(b, a),
        a != b ==> before(a, b) || before(b, a),
{
    lemma_bytes_order(encode_utf8(a), encode_utf8(b));
    encode_utf8_decode_utf8(a);
    encode_utf8_decode_utf8(b);
}

/// The order of texts is transitive.
pub proof fn text_order_is_transitive(a: Seq<char>, b: Seq<char>, c: Seq<char>)
    requires
        before(a, b),
        before(b, c),
    ensures
        before(a, c),
{
    lemma_bytes_transitive(encode_utf8(a), encode_utf8(b), encode_utf8(c));
}

/// Texts compare at the first byte in which they differ; one that another goes
/// on from sorts before it.
pub proof fn order_is_decided_by_the_first_difference(a: Seq<char>, b: Seq<char>, k: int)
    requires
        0 <= k <= encode_utf8(a).len(),
        k < encode_utf8(b).len(),
        forall|i: int| 0 <= i < k ==> encode_utf8(a)[i] == #[trigger] encode_utf8(b)[i],
        k < encode_utf8(a).len() ==> encode_utf8(a)[k] < encode_utf8(b)[k],
    ensures
        before(a, b),
{
    lemma_first_difference(encode_utf8(a), encode_utf8(b), k);
}

proof fn lemma_first_difference(a: Seq<u8>, b: Seq<u8>, k: int)
    requires
        0 <= k <= a.len(),
        k < b.len(),
        forall|i: int| 0 <= i < k ==> a[i] == #[trigger] b[i],
        k < a.len() ==> a[k] < b[k],
    ensures
        bytes_before(a, b),
    decreases a.len(),
{
    if a.len() > 0 && k > 0 {
        let x = a.drop_first();
        let y = b.drop_first();
        assert(a[0] == b[0]);
        assert forall|i: int| 0 <= i < k - 1 implies x[i] == #[trigger] y[i] by {
            assert(a[i + 1] == b[i + 1]);
        }
        lemma_first_difference(x, y, k - 1);
    }
}

/// Trimming takes white space off both ends, and nothing else: what is left is
/// a stretch of the text that neither begins nor ends with white space, and all
/// around it is white space.
pub proof fn trimming_takes_white_space_off(text: Seq<char>) -> (at: (int, int))
    ensures
        0 <= at.0 <= at.1 <= text.len(),
        trim(text) == text.subrange(at.0, at.1),
        forall|i: int| 0 <= i < at.0 ==> whitespace(#[trigger] text[i]),
        forall|i: int| at.1 <= i < text.len() ==> whitespace(#[trigger] text[i]),
        at.0 < at.1 ==> !whitespace(text[at.0]) && !whitespace(text[at.1 - 1]),
{
    let from = lemma_trim_start(text);
    let rest = trim_start(text);
    let to = lemma_trim_end(rest);
    assert(rest.take(to) =~= text.subrange(from, from + to));
    assert forall|i: int| from + to <= i < text.len() implies whitespace(#[trigger] text[i]) by {
        assert(rest[i - from] == text[i]);
    }
    if to > 0 {
        assert(rest[0] == text[from]);
        assert(rest[to - 1] == text[from + to - 1]);
    }
    (from, from + to)
}

proof fn lemma_trim_start(text: Seq<char>) -> (from: int)
    ensures
        0 <= from <= text.len(),
        trim_start(text) == text.skip(from),
        forall|i: int| 0 <= i < from ==> whitespace(#[trigger] text[i]),
        from < text.len() ==> !whitespace(text[from]),
    decreases text.len(),
{
    if text.len() > 0 && whitespace(text[0]) {
        let rest = text.drop_first();
        let from = lemma_trim_start(rest);
        assert(rest.skip(from) =~= text.skip(from + 1));
        assert forall|i: int| 0 <= i < from + 1 implies whitespace(#[trigger] text[i]) by {
            if i > 0 {
                assert(rest[i - 1] == text[i]);
            }
        }
        from + 1
    } else {
        assert(text.skip(0) =~= text);
        0
    }
}

proof fn lemma_trim_end(text: Seq<char>) -> (to: int)
    ensures
        0 <= to <= text.len(),
        trim_end(text) == text.take(to),
        forall|i: int| to <= i < text.len() ==> whitespace(#[trigger] text[i]),
        to > 0 ==> !whitespace(text[to - 1]),
    decreases text.len(),
{
    if text.len() > 0 && whitespace(text.last()) {
        let rest = text.drop_last();
        let to = lemma_trim_end(rest);
        assert(rest.take(to) =~= text.take(to));
        assert forall|i: int| to <= i < text.len() implies whitespace(#[trigger] text[i]) by {
            if i < rest.len() {
                assert(rest[i] == text[i]);
            }
        }
        to
    } else {
        assert(text.take(text.len() as int) =~= text);
        text.len() as int
    }
}

/// A number in decimal reads back as that number, and begins with a zero only
/// where it is zero.
pub proof fn decimals_read_back(n: nat)
    ensures
        decimal(n).len() > 0,
        all_digits(decimal(n)),
        digits_value(decimal(n)) == n,
        numeral(decimal(n)) == Some(n),
        n > 0 ==> decimal(n)[0] != '0',
    decreases n,
{
    let text = decimal(n);
    if n < 10 {
        assert(text.drop_last() =~= seq![]);
        assert(digits_value(text.drop_last()) == 0);
    } else {
        decimals_read_back(n / 10);
        assert(text.drop_last() =~= decimal(n / 10));
        assert forall|i: int| 0 <= i < text.len() implies '0' <= #[trigger] text[i] <= '9' by {
            if i < text.len() - 1 {
                assert(text[i] == decimal(n / 10)[i]);
            }
        }
    }
    assert('0' <= text[0] <= '9');
}

/// A text that is cut is cut as late as can be: what is kept is its beginning,
/// and one character more would not have fitted.
pub proof fn cuts_are_as_late_as_can_be(text: Seq<char>, n: nat)
    ensures
        encode_utf8(text).len() <= n ==> shorten(text, n) == text,
        encode_utf8(text).len() > n ==> exists|kept: int|
            0 <= kept < text.len() && shorten(text, n) == #[trigger] text.take(kept) + "…"@
                && encode_utf8(text.take(kept)).len() <= n && encode_utf8(
                text.take(kept + 1),
            ).len() > n,
{
    if encode_utf8(text).len() > n {
        let kept = fitting(text, n as int) as int;
        lemma_fitting_bounds(text, n as int);
        lemma_fitting_is_all(text, n as int);
        assert(kept < text.len()) by {
            if kept == text.len() {
                assert(text.take(kept) =~= text);
            }
        }
        assert(shorten(text, n) == text.take(kept) + "…"@);
    }
}

proof fn lemma_fitting_is_all(text: Seq<char>, room: int)
    requires
        room >= 0,
    ensures
        fitting(text, room) < text.len() ==> encode_utf8(
            text.take(fitting(text, room) as int + 1),
        ).len() > room,
    decreases text.len(),
{
    if text.len() > 0 {
        let rest = text.drop_first();
        let head = text.take(fitting(text, room) as int + 1);
        if width(text[0]) > room {
            assert(head[0] == text[0]);
            assert(head.drop_first() =~= seq![]);
            assert(encode_utf8(head) == encode_scalar(text[0] as u32) + encode_utf8(
                head.drop_first(),
            ));
        } else if fitting(text, room) < text.len() {
            lemma_fitting_is_all(rest, room - width(text[0]));
            assert(head.drop_first() =~= rest.take(fitting(rest, room - width(text[0])) as int + 1));
            assert(head[0] == text[0]);
            assert(encode_utf8(head) == encode_scalar(text[0] as u32) + encode_utf8(
                head.drop_first(),
            ));
        }
    }
}

/// What stands in a text stands in every text that is put together with it.
pub broadcast proof fn lemma_parts_hold(a: Seq<char>, b: Seq<char>, part: Seq<char>)
    ensures
        holds(a, part) || holds(b, part) ==> #[trigger] holds(a + b, part),
{
    if holds(a, part) {
        let at = choose|at: int| #[trigger] stands_at(a, part, at);
        assert((a + b).subrange(at, at + part.len()) =~= a.subrange(at, at + part.len()));
        assert(stands_at(a + b, part, at));
    } else if holds(b, part) {
        let at = choose|at: int| #[trigger] stands_at(b, part, at);
        let k = a.len() + at;
        assert((a + b).subrange(k, k + part.len()) =~= b.subrange(at, at + part.len()));
        assert(stands_at(a + b, part, k));
    }
}

/// A text stands in itself.
pub broadcast proof fn lemma_holds_itself(text: Seq<char>)
    ensures
        #[trigger] holds(text, text),
{
    assert(text.subrange(0, text.len() as int) =~= text);
    assert(stands_at(text, text, 0));
}

/// Padding a text leaves it whole, and makes it as wide as asked for where it is
/// not wider: to the left or to the right of it stand spaces alone.
pub proof fn padding_adds_spaces_alone(text: Seq<char>, width: nat)
    ensures
        pad_left(text, width).len() == if text.len() < width {
            width
        } else {
            text.len()
        },
        pad_right(text, width).len() == pad_left(text, width).len(),
        pad_left(text, width).skip(pad_left(text, width).len() - text.len()) == text,
        pad_right(text, width).take(text.len() as int) == text,
        forall|i: int|
            0 <= i < pad_left(text, width).len() - text.len() ==> (#[trigger] pad_left(
                text,
                width,
            )[i]) == ' ',
        forall|i: int|
            text.len() <= i < pad_right(text, width).len() ==> (#[trigger] pad_right(
                text,
                width,
            )[i]) == ' ',
{
    assert(pad_left(text, width).skip(pad_left(text, width).len() - text.len()) =~= text);
    assert(pad_right(text, width).take(text.len() as int) =~= text);
}

/// Padding leaves a text whole.
pub broadcast proof fn lemma_padding_holds(text: Seq<char>, width: nat, part: Seq<char>)
    ensures
        holds(text, part) ==> #[trigger] holds(pad_left(text, width), part),
{
    if text.len() < width {
        lemma_parts_hold(run(' ', (width - text.len()) as nat), text, part);
    }
}

/// Padding leaves a text whole.
pub broadcast proof fn lemma_padding_right_holds(text: Seq<char>, width: nat, part: Seq<char>)
    ensures
        holds(text, part) ==> #[trigger] holds(pad_right(text, width), part),
{
    if text.len() < width {
        lemma_parts_hold(text, run(' ', (width - text.len()) as nat), part);
    }
}

/// What is joined holds every part, and the separator where there are several.
pub proof fn joins_hold_every_part(parts: Seq<Seq<char>>, separator: Seq<char>, i: int)
    requires
        0 <= i < parts.len(),
    ensures
        holds(join(parts, separator), parts[i]),
        parts.len() > 1 ==> holds(join(parts, separator), separator),
    decreases parts.len(),
{
    broadcast use {lemma_parts_hold, lemma_holds_itself};

    if parts.len() > 1 {
        let earlier = parts.drop_last();
        if i < earlier.len() {
            assert(earlier[i] == parts[i]);
            joins_hold_every_part(earlier, separator, i);
        }
        let head = join(earlier, separator) + separator;
        assert(holds(head, separator));
        assert(i < earlier.len() ==> holds(head, parts[i]));
        assert(join(parts, separator) == head + parts.last());
    }
}

/// A text without its white space.
pub open spec fn without_space(text: Seq<char>) -> Seq<char>
    decreases text.len(),
{
    if text.len() == 0 {
        seq![]
    } else {
        (if whitespace(text[0]) {
            seq![]
        } else {
            seq![text[0]]
        }) + without_space(text.drop_first())
    }
}

/// The texts one after another.
pub open spec fn strung(parts: Seq<Seq<char>>) -> Seq<char>
    decreases parts.len(),
{
    if parts.len() == 0 {
        seq![]
    } else {
        parts[0] + strung(parts.drop_first())
    }
}

/// The fields of a text are what it holds besides white space, in its order:
/// none is empty, and none holds white space.
pub proof fn fields_leave_out_white_space_alone(text: Seq<char>)
    ensures
        strung(fields(text)) == without_space(text),
        forall|i: int| 0 <= i < fields(text).len() ==> (#[trigger] fields(text)[i]).len() > 0,
        forall|i: int, j: int|
            0 <= i < fields(text).len() && 0 <= j < fields(text)[i].len() ==> !whitespace(
                #[trigger] fields(text)[i][j],
            ),
    decreases text.len(),
{
    if text.len() > 0 {
        if whitespace(text[0]) {
            fields_leave_out_white_space_alone(text.drop_first());
            assert(seq![] + without_space(text.drop_first()) =~= without_space(text.drop_first()));
        } else {
            let end = field_end(text);
            lemma_field_end_bounds(text);
            let first = text.take(end);
            let rest = text.skip(end);
            fields_leave_out_white_space_alone(rest);
            let all = fields(text);
            assert(all == seq![first] + fields(rest));
            assert(all.drop_first() =~= fields(rest));
            lemma_plain_stays(first, rest);
            assert(first + rest =~= text);
            assert forall|i: int| 0 <= i < all.len() implies (#[trigger] all[i]).len() > 0 by {
                if i > 0 {
                    assert(all[i] == fields(rest)[i - 1]);
                }
            }
            assert forall|i: int, j: int|
                0 <= i < all.len() && 0 <= j < all[i].len() implies !whitespace(
                #[trigger] all[i][j],
            ) by {
                if i > 0 {
                    assert(all[i] == fields(rest)[i - 1]);
                }
            }
        }
    }
}

proof fn lemma_plain_stays(head: Seq<char>, rest: Seq<char>)
    requires
        forall|i: int| 0 <= i < head.len() ==> !whitespace(#[trigger] head[i]),
    ensures
        without_space(head + rest) == head + without_space(rest),
    decreases head.len(),
{
    if head.len() == 0 {
        assert(head + rest =~= rest);
        assert(head + without_space(rest) =~= without_space(rest));
    } else {
        let tail = head.drop_first();
        assert forall|i: int| 0 <= i < tail.len() implies !whitespace(#[trigger] tail[i]) by {
            assert(tail[i] == head[i + 1]);
        }
        lemma_plain_stays(tail, rest);
        assert((head + rest).drop_first() =~= tail + rest);
        assert(seq![head[0]] + (tail + without_space(rest)) =~= head + without_space(rest));
    }
}

/// The lines with an end after each.
pub open spec fn ended(rows: Seq<Seq<char>>) -> Seq<char>
    decreases rows.len(),
{
    if rows.len() == 0 {
        seq![]
    } else {
        rows[0].push('\n') + ended(rows.drop_first())
    }
}

/// Lines that are written with an end after each are read back as they were,
/// where none holds an end or a carriage return at its own end.
pub proof fn lines_are_the_lines(rows: Seq<Seq<char>>)
    requires
        forall|i: int, j: int|
            0 <= i < rows.len() && 0 <= j < rows[i].len() ==> #[trigger] rows[i][j] != '\n',
        forall|i: int|
            0 <= i < rows.len() && (#[trigger] rows[i]).len() > 0 ==> rows[i].last() != '\r',
    ensures
        lines(ended(rows)) == rows,
    decreases rows.len(),
{
    if rows.len() == 0 {
        assert(rows =~= seq![]);
    } else {
        let rest = rows.drop_first();
        assert forall|i: int, j: int|
            0 <= i < rest.len() && 0 <= j < rest[i].len() implies #[trigger] rest[i][j]
            != '\n' by {
            assert(rest[i][j] == rows[i + 1][j]);
        }
        assert forall|i: int| 0 <= i < rest.len() && (#[trigger] rest[i]).len() > 0 implies
            rest[i].last() != '\r' by {
            assert(rest[i] == rows[i + 1]);
        }
        lines_are_the_lines(rest);
        let text = ended(rows);
        let first = rows[0];
        let n = first.len() as int;
        assert forall|i: int| 0 <= i < n implies text[i] != '\n' by {
            assert(text[i] == first[i]);
            assert(rows[0][i] != '\n');
        }
        lemma_line_end_at(text, n);
        assert(text.take(n) =~= first);
        assert(text.skip(n + 1) =~= ended(rest));
        assert(strip_return(first) == first);
        assert(seq![first] + rest =~= rows);
    }
}

/// The laws on text hold of what is computed: of whatever this module's
/// functions return.
pub proof fn laws_hold_of_the_text(
    s: &str,
    t: &str,
    u: &str,
    n: u64,
    width: usize,
    parts: &Vec<String>,
    out: String,
    many: Vec<String>,
    number: Option<u64>,
    b: bool,
)
    ensures
        call_ensures(trimmed, (s,), out) ==> out@ == trim(s@),
        call_ensures(trimmed_end, (s,), out) ==> out@ == trim_end(s@),
        call_ensures(decimal_text, (n,), out) ==> out@ == decimal(n as nat),
        call_ensures(replaced, (s, t, u), out) ==> out@ == replace(s@, t@, u@),
        call_ensures(joined, (parts, t), out) ==> out@ == join(views(parts@), t@),
        call_ensures(truncate, (s, width), out) ==> out@ == shorten(s@, width as nat),
        call_ensures(split_lines, (s,), many) ==> views(many@) == lines(s@),
        call_ensures(split_fields, (s,), many) ==> views(many@) == fields(s@),
        call_ensures(parse_number, (s, n), number) ==> (number is Some <==> numeral(s@) is Some
            && numeral(s@)->0 <= n) && (number is Some ==> numeral(s@)->0 == number->0),
        call_ensures(same, (s, t), b) ==> b == (s@ == t@),
        call_ensures(sorts_before, (s, t), b) ==> b == before(s@, t@),
        call_ensures(starts_with, (s, t), b) ==> b == t@.is_prefix_of(s@),
{
    if call_ensures(starts_with, (s, t), b) && t@.len() <= s@.len() {
        assert(t@.is_prefix_of(s@) <==> s@.subrange(0, t@.len() as int) =~= t@);
    }
}

} // verus!
