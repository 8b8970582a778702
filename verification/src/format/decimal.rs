//! Floating-point readings as fixed-point text.

use super::text::{
    blank_cells, decimal_digits, integer_text, lemma_cells_split, lemma_digit_written,
    lemma_digits_fit, lemma_integer_text_printable, lemma_padded_digit_written,
    lemma_padded_digits_are_digits, lemma_padded_len, lemma_pow10_increases,
    lemma_pow10_positive, padded_digits, pow10, right_justified, DIGIT_ZERO, MINUS, PLUS, POINT,
    SPACE,
};
use crate::font5x7::{has_glyph, printable};
use vstd::arithmetic::div_mod::{lemma_basic_div, lemma_div_denominator, lemma_small_div_converse};
use vstd::prelude::*;

verus! {

/// A floating-point reading, reduced to what its text depends on.
#[derive(Debug, Clone, Copy, PartialEq, Eq)]
pub enum Decimal {
    /// Not a number.
    NotANumber,
    /// Positive or negative infinity.
    Infinite { negative: bool },
    /// A finite value: `scaled` is its magnitude times ten to the power of
    /// the precision it is printed with, rounded half away from zero.
    Finite { negative: bool, scaled: u128 },
    /// A finite value whose magnitude, times ten to the power of the
    /// precision, is beyond what `Finite` holds. No display shows it.
    TooLarge,
}

/// The text `NaN`.
pub open spec fn nan_text() -> Seq<u8> {
    seq![0x4Eu8, 0x61u8, 0x4Eu8]
}

/// The text `+Inf` or `-Inf`.
pub open spec fn infinity_text(negative: bool) -> Seq<u8> {
    seq![if negative { MINUS } else { PLUS }, 0x49u8, 0x6Eu8, 0x66u8]
}

/// The text of a fixed-point value with `precision` fractional digits: the
/// sign if negative, the whole part, and for a precision above zero the point
/// and the fraction.
pub open spec fn fixed_text(negative: bool, scaled: nat, precision: nat) -> Seq<u8> {
    let whole = integer_text(negative, scaled / pow10(precision));
    if precision == 0 {
        whole
    } else {
        whole + seq![POINT] + padded_digits(scaled, precision)
    }
}

/// The text of a reading printed with `precision` fractional digits. A
/// reading that is too large has none.
pub open spec fn decimal_text(value: Decimal, precision: nat) -> Seq<u8> {
    match value {
        Decimal::NotANumber => nan_text(),
        Decimal::Infinite { negative } => infinity_text(negative),
        Decimal::Finite { negative, scaled } => fixed_text(negative, scaled as nat, precision),
        Decimal::TooLarge => Seq::empty(),
    }
}

/// Whether a reading can be shown in `width` cells with `precision`
/// fractional digits: it is not too large, and its text is no longer than
/// the cells.
pub open spec fn decimal_fits(value: Decimal, precision: nat, width: nat) -> bool {
    !(value is TooLarge) && decimal_text(value, precision).len() <= width
}

/// No number of 128 bits has more than 39 digits.
pub proof fn lemma_digits_of_128_bits(value: u128)
    ensures
        1 <= decimal_digits(value as nat).len() <= 39,
{
    assert(pow10(39) == 1_000_000_000_000_000_000_000_000_000_000_000_000_000) by {
        reveal_with_fuel(pow10, 40);
    }
    lemma_digits_fit(value as nat, 39);
}

/// The number of decimal digits of `value`.
pub fn count_digits(value: u128) -> (count: usize)
    ensures
        count == decimal_digits(value as nat).len(),
        1 <= count <= 39,
{
    proof {
        lemma_digits_of_128_bits(value);
    }
    let mut count: usize = 1;
    let mut rest: u128 = value / 10;
    while rest > 0
        invariant
            1 <= count,
            decimal_digits(value as nat).len() <= 39,
            rest > 0 ==> decimal_digits(value as nat).len() == count + decimal_digits(
                rest as nat,
            ).len(),
            rest == 0 ==> decimal_digits(value as nat).len() == count,
        decreases rest,
    {
        proof {
            lemma_digits_fit(rest as nat, 1);
        }
        rest = rest / 10;
        count = count + 1;
    }
    count
}

/// Writes the decimal digits of `value` into the cells that end before
/// `end`, from the last digit leftward, and returns where they start.
pub fn put_digits_128(buf: &mut Vec<u8>, end: usize, value: u128) -> (start: usize)
    requires
        end <= old(buf).len(),
        decimal_digits(value as nat).len() <= end,
    ensures
        start + decimal_digits(value as nat).len() == end,
        final(buf)@ == old(buf)@.subrange(0, start as int) + decimal_digits(value as nat) + old(
            buf,
        )@.subrange(end as int, old(buf).len() as int),
{
    let ghost digits = decimal_digits(value as nat);
    let mut index: usize = end;
    let mut rest: u128 = value;
    let mut more: bool = true;
    assert(digits =~= decimal_digits(rest as nat) + buf@.subrange(index as int, end as int));
    while more
        invariant
            index <= end <= buf.len(),
            buf.len() == old(buf).len(),
            digits == decimal_digits(value as nat),
            more ==> digits == decimal_digits(rest as nat) + buf@.subrange(
                index as int,
                end as int,
            ) && 1 <= decimal_digits(rest as nat).len() <= index,
            !more ==> digits == buf@.subrange(index as int, end as int),
            buf@.subrange(0, index as int) == old(buf)@.subrange(0, index as int),
            buf@.subrange(end as int, buf.len() as int) == old(buf)@.subrange(
                end as int,
                buf.len() as int,
            ),
        decreases rest, (if more { 1int } else { 0int }),
    {
        let ghost before = buf@;
        buf.set(index - 1, DIGIT_ZERO + (rest % 10) as u8);
        proof {
            lemma_digit_written(
                old(buf)@,
                before,
                buf@,
                index as int,
                end as int,
                rest as nat,
                digits,
            );
            lemma_digits_fit((rest / 10) as nat, 1);
        }
        index = index - 1;
        rest = rest / 10;
        more = rest > 0;
    }
    proof {
        lemma_cells_split(buf@, index as int, end as int);
    }
    index
}

/// Writes the lowest `count` decimal digits of `value`, leading zeros kept,
/// into the cells that end before `end`.
pub fn put_padded_digits(buf: &mut Vec<u8>, end: usize, value: u128, count: u8)
    requires
        count <= end <= old(buf).len(),
    ensures
        final(buf)@ == old(buf)@.subrange(0, end - count) + padded_digits(
            value as nat,
            count as nat,
        ) + old(buf)@.subrange(end as int, old(buf).len() as int),
{
    let ghost digits = padded_digits(value as nat, count as nat);
    let mut index: usize = end;
    let mut rest: u128 = value;
    let mut written: u8 = 0;
    assert(digits =~= padded_digits(rest as nat, count as nat) + buf@.subrange(
        index as int,
        end as int,
    ));
    while written < count
        invariant
            written <= count <= end <= buf.len(),
            index + written == end,
            buf.len() == old(buf).len(),
            digits == padded_digits(rest as nat, (count - written) as nat) + buf@.subrange(
                index as int,
                end as int,
            ),
            buf@.subrange(0, index as int) == old(buf)@.subrange(0, index as int),
            buf@.subrange(end as int, buf.len() as int) == old(buf)@.subrange(
                end as int,
                buf.len() as int,
            ),
        decreases count - written,
    {
        let ghost before = buf@;
        buf.set(index - 1, DIGIT_ZERO + (rest % 10) as u8);
        proof {
            lemma_padded_digit_written(
                old(buf)@,
                before,
                buf@,
                index as int,
                end as int,
                rest as nat,
                (count - written) as nat,
                digits,
            );
        }
        index = index - 1;
        rest = rest / 10;
        written = written + 1;
    }
    proof {
        assert(padded_digits(rest as nat, 0) + buf@.subrange(index as int, end as int)
            =~= buf@.subrange(index as int, end as int));
        lemma_cells_split(buf@, index as int, end as int);
    }
}

/// The whole part of a fixed-point value: `scaled` divided by ten to the
/// power `precision`.
pub fn whole_part(scaled: u128, precision: u8) -> (whole: u128)
    ensures
        whole == scaled as nat / pow10(precision as nat),
{
    let mut whole: u128 = scaled;
    let mut shifted: u8 = 0;
    assert(pow10(0) == 1);
    while shifted < precision && whole > 0
        invariant
            shifted <= precision,
            whole == scaled as nat / pow10(shifted as nat),
        decreases precision - shifted,
    {
        proof {
            lemma_pow10_positive(shifted as nat);
            lemma_div_denominator(scaled as int, pow10(shifted as nat) as int, 10);
            assert(pow10((shifted + 1) as nat) == pow10(shifted as nat) * 10);
        }
        whole = whole / 10;
        shifted = shifted + 1;
    }
    proof {
        if shifted < precision {
            lemma_pow10_positive(shifted as nat);
            lemma_small_div_converse(scaled as int, pow10(shifted as nat) as int);
            lemma_pow10_increases(shifted as nat, precision as nat);
            lemma_basic_div(scaled as int, pow10(precision as nat) as int);
        }
    }
    whole
}

/// Writing `piece` into the cells just before a text that already ends the
/// buffer gives a buffer that ends in `piece` followed by that text.
proof fn lemma_text_grows(
    blank: Seq<u8>,
    before: Seq<u8>,
    after: Seq<u8>,
    start: int,
    pos: int,
    piece: Seq<u8>,
    text: Seq<u8>,
)
    requires
        0 <= start <= pos <= blank.len(),
        start + piece.len() == pos,
        before == blank.subrange(0, pos) + text,
        before.len() == blank.len(),
        after == before.subrange(0, start) + piece + before.subrange(pos, before.len() as int),
    ensures
        after == blank.subrange(0, start) + (piece + text),
        after.len() == blank.len(),
{
    assert(after =~= blank.subrange(0, start) + (piece + text));
}

/// Setting one cell is writing a piece of length one.
proof fn lemma_cell_set(before: Seq<u8>, pos: int, cell: u8)
    requires
        0 <= pos < before.len(),
    ensures
        before.update(pos, cell) == before.subrange(0, pos) + seq![cell] + before.subrange(
            pos + 1,
            before.len() as int,
        ),
{
    assert(before.update(pos, cell) =~= before.subrange(0, pos) + seq![cell] + before.subrange(
        pos + 1,
        before.len() as int,
    ));
}

/// Formats a fixed-point value with `precision` fractional digits, or gives
/// `None` if sign, whole part, point and fraction together are longer than
/// `width` cells. The text is laid out in full before any cell is written.
pub fn format_fixed(negative: bool, scaled: u128, precision: u8, width: usize) -> (r: Option<
    Vec<u8>,
>)
    ensures
        match r {
            Some(buf) => fixed_text(negative, scaled as nat, precision as nat).len() <= width
                && buf@ == right_justified(
                fixed_text(negative, scaled as nat, precision as nat),
                width as nat,
            ),
            None => fixed_text(negative, scaled as nat, precision as nat).len() > width,
        },
{
    let whole: u128 = whole_part(scaled, precision);
    let integer_digits: usize = count_digits(whole);
    let total_chars: usize = (if negative { 1 } else { 0 }) + integer_digits + (if precision > 0 {
        1
    } else {
        0
    }) + precision as usize;
    let ghost fraction = padded_digits(scaled as nat, precision as nat);
    let ghost digits = decimal_digits(whole as nat);
    let ghost sign: Seq<u8> = if negative {
        seq![MINUS]
    } else {
        Seq::empty()
    };
    let ghost point: Seq<u8> = if precision > 0 {
        seq![POINT]
    } else {
        Seq::empty()
    };
    proof {
        lemma_padded_len(scaled as nat, precision as nat);
        assert(fixed_text(negative, scaled as nat, precision as nat) =~= sign + (digits + (point
            + fraction)));
    }
    if total_chars > width {
        return None;
    }
    let mut buf: Vec<u8> = blank_cells(width);
    let ghost blank = buf@;
    let mut pos: usize = width;
    put_padded_digits(&mut buf, pos, scaled, precision);
    proof {
        assert(blank =~= blank.subrange(0, width as int) + Seq::<u8>::empty());
        lemma_text_grows(
            blank,
            blank,
            buf@,
            width - precision,
            width as int,
            fraction,
            Seq::empty(),
        );
        assert(fraction + Seq::<u8>::empty() =~= fraction);
    }
    pos = pos - precision as usize;
    let ghost mut text: Seq<u8> = fraction;
    if precision > 0 {
        let ghost before = buf@;
        buf.set(pos - 1, POINT);
        proof {
            lemma_cell_set(before, pos - 1, POINT);
            lemma_text_grows(blank, before, buf@, pos - 1, pos as int, point, text);
            text = point + text;
        }
        pos = pos - 1;
    } else {
        proof {
            assert(point + text =~= text);
            text = point + text;
        }
    }
    let ghost before = buf@;
    let start: usize = put_digits_128(&mut buf, pos, whole);
    proof {
        lemma_text_grows(blank, before, buf@, start as int, pos as int, digits, text);
        text = digits + text;
    }
    pos = start;
    if negative {
        let ghost before = buf@;
        buf.set(pos - 1, MINUS);
        proof {
            lemma_cell_set(before, pos - 1, MINUS);
            lemma_text_grows(blank, before, buf@, pos - 1, pos as int, sign, text);
            text = sign + text;
        }
        pos = pos - 1;
    } else {
        proof {
            assert(sign + text =~= text);
            text = sign + text;
        }
    }
    assert(blank.subrange(0, pos as int) =~= Seq::new((width - text.len()) as nat, |i: int| SPACE));
    Some(buf)
}

/// Formats a reading with `precision` fractional digits, or gives `None` if
/// it cannot be shown in `width` cells. `NaN`, `+Inf` and `-Inf` are printed
/// as such whatever the precision.
pub fn format_decimal(value: Decimal, precision: u8, width: usize) -> (r: Option<Vec<u8>>)
    ensures
        match r {
            Some(buf) => decimal_fits(value, precision as nat, width as nat) && buf@
                == right_justified(decimal_text(value, precision as nat), width as nat),
            None => !decimal_fits(value, precision as nat, width as nat),
        },
{
    match value {
        Decimal::NotANumber => {
            if width < 3 {
                return None;
            }
            let mut buf: Vec<u8> = blank_cells(width);
            buf.set(width - 3, 0x4E);
            buf.set(width - 2, 0x61);
            buf.set(width - 1, 0x4E);
            assert(buf@ =~= right_justified(nan_text(), width as nat));
            Some(buf)
        },
        Decimal::Infinite { negative } => {
            if width < 4 {
                return None;
            }
            let mut buf: Vec<u8> = blank_cells(width);
            buf.set(width - 4, if negative { MINUS } else { PLUS });
            buf.set(width - 3, 0x49);
            buf.set(width - 2, 0x6E);
            buf.set(width - 1, 0x66);
            assert(buf@ =~= right_justified(infinity_text(negative), width as nat));
            Some(buf)
        },
        Decimal::Finite { negative, scaled } => format_fixed(negative, scaled, precision, width),
        Decimal::TooLarge => None,
    }
}

/// The font has a glyph for every character of a reading's text.
pub proof fn lemma_decimal_text_printable(value: Decimal, precision: nat)
    ensures
        printable(decimal_text(value, precision)),
{
    let text = decimal_text(value, precision);
    match value {
        Decimal::NotANumber => {},
        Decimal::Infinite { negative } => {},
        Decimal::TooLarge => {},
        Decimal::Finite { negative, scaled } => {
            let whole = integer_text(negative, scaled as nat / pow10(precision));
            let fraction = padded_digits(scaled as nat, precision);
            lemma_integer_text_printable(negative, scaled as nat / pow10(precision));
            lemma_padded_digits_are_digits(scaled as nat, precision);
            assert forall|i: int| 0 <= i < text.len() implies has_glyph(#[trigger] text[i]) by {
                if precision > 0 {
                    if i < whole.len() {
                        assert(text[i] == whole[i]);
                    } else if i > whole.len() {
                        assert(text[i] == fraction[i - whole.len() - 1]);
                    }
                }
            }
        },
    }
}

} // verus!
