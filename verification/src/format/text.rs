//! The text of numbers: digits, signs and the blanks before them.

use crate::font5x7::{has_glyph, printable};
use vstd::prelude::*;

verus! {

/// ASCII blank, which fills the cells left of a number.
pub const SPACE: u8 = 0x20;

/// ASCII `-`.
pub const MINUS: u8 = 0x2D;

/// ASCII `+`.
pub const PLUS: u8 = 0x2B;

/// ASCII `.`.
pub const POINT: u8 = 0x2E;

/// ASCII `0`; the other digits follow it.
pub const DIGIT_ZERO: u8 = 0x30;

/// Ten to the power `e`.
pub open spec fn pow10(e: nat) -> nat
    decreases e,
{
    if e == 0 {
        1
    } else {
        10 * pow10((e - 1) as nat)
    }
}

/// The ASCII character of the digit `d`.
pub open spec fn digit_char(d: nat) -> u8
    recommends
        d < 10,
{
    (DIGIT_ZERO + d) as u8
}

/// The decimal digits of `m`, most significant first, without leading zeros;
/// zero is the single digit `0`.
pub open spec fn decimal_digits(m: nat) -> Seq<u8>
    decreases m,
{
    if m < 10 {
        seq![digit_char(m)]
    } else {
        decimal_digits(m / 10).push(digit_char(m % 10))
    }
}

/// The lowest `count` decimal digits of `m`, most significant first, with
/// leading zeros kept.
pub open spec fn padded_digits(m: nat, count: nat) -> Seq<u8>
    decreases count,
{
    if count == 0 {
        Seq::empty()
    } else {
        padded_digits(m / 10, (count - 1) as nat).push(digit_char(m % 10))
    }
}

/// The text of an integer given by sign and magnitude; zero with the sign
/// flag set keeps its minus sign.
pub open spec fn integer_text(negative: bool, magnitude: nat) -> Seq<u8> {
    if negative {
        seq![MINUS] + decimal_digits(magnitude)
    } else {
        decimal_digits(magnitude)
    }
}

/// `text` at the right end of `width` cells, the cells before it blank.
pub open spec fn right_justified(text: Seq<u8>, width: nat) -> Seq<u8>
    recommends
        text.len() <= width,
{
    Seq::new((width - text.len()) as nat, |i: int| SPACE) + text
}

/// A power of ten is at least one.
pub proof fn lemma_pow10_positive(e: nat)
    ensures
        pow10(e) >= 1,
    decreases e,
{
    if e > 0 {
        lemma_pow10_positive((e - 1) as nat);
    }
}

/// Powers of ten grow with the exponent.
pub proof fn lemma_pow10_increases(a: nat, b: nat)
    requires
        a <= b,
    ensures
        pow10(a) <= pow10(b),
    decreases b,
{
    if a < b {
        lemma_pow10_increases(a, (b - 1) as nat);
        lemma_pow10_positive((b - 1) as nat);
    }
}

/// A number has at most `cells` digits exactly when it is below ten to the
/// power `cells`.
pub proof fn lemma_digits_fit(m: nat, cells: nat)
    requires
        cells >= 1,
    ensures
        decimal_digits(m).len() <= cells <==> m < pow10(cells),
        decimal_digits(m).len() >= 1,
    decreases m,
{
    lemma_pow10_positive((cells - 1) as nat);
    if m >= 10 {
        if cells >= 2 {
            lemma_digits_fit(m / 10, (cells - 1) as nat);
        } else {
            lemma_digits_fit(m / 10, 1);
            assert(pow10(1) == 10 * pow10(0));
        }
    } else {
        assert(pow10(cells) >= 10) by {
            assert(pow10(cells) == 10 * pow10((cells - 1) as nat));
        }
    }
}

/// Padded digits are as many as asked for.
pub proof fn lemma_padded_len(m: nat, count: nat)
    ensures
        padded_digits(m, count).len() == count,
    decreases count,
{
    if count > 0 {
        lemma_padded_len(m / 10, (count - 1) as nat);
    }
}

/// The cells of a display of `width` characters, all blank.
pub fn blank_cells(width: usize) -> (buf: Vec<u8>)
    ensures
        buf@ == Seq::new(width as nat, |i: int| SPACE),
{
    let buf: Vec<u8> = vec![SPACE; width];
    assert(buf@ =~= Seq::new(width as nat, |i: int| SPACE));
    buf
}

/// Every character of a number's digits is one of `0` to `9`.
pub proof fn lemma_digits_are_digits(m: nat)
    ensures
        forall|i: int|
            0 <= i < decimal_digits(m).len() ==> DIGIT_ZERO <= #[trigger] decimal_digits(m)[i]
                <= DIGIT_ZERO + 9,
    decreases m,
{
    if m >= 10 {
        lemma_digits_are_digits(m / 10);
        assert forall|i: int| 0 <= i < decimal_digits(m).len() implies DIGIT_ZERO
            <= #[trigger] decimal_digits(m)[i] <= DIGIT_ZERO + 9 by {
            if i < decimal_digits(m / 10).len() {
                assert(decimal_digits(m)[i] == decimal_digits(m / 10)[i]);
            }
        }
    }
}

/// Every character of padded digits is one of `0` to `9`.
pub proof fn lemma_padded_digits_are_digits(m: nat, count: nat)
    ensures
        forall|i: int|
            0 <= i < padded_digits(m, count).len() ==> DIGIT_ZERO <= #[trigger] padded_digits(
                m,
                count,
            )[i] <= DIGIT_ZERO + 9,
    decreases count,
{
    if count > 0 {
        lemma_padded_digits_are_digits(m / 10, (count - 1) as nat);
        assert forall|i: int| 0 <= i < padded_digits(m, count).len() implies DIGIT_ZERO
            <= #[trigger] padded_digits(m, count)[i] <= DIGIT_ZERO + 9 by {
            if i < padded_digits(m / 10, (count - 1) as nat).len() {
                assert(padded_digits(m, count)[i] == padded_digits(m / 10, (count - 1) as nat)[i]);
            }
        }
    }
}

/// The font has a glyph for every character of a number's text and for the
/// blanks before it.
pub proof fn lemma_right_justified_printable(text: Seq<u8>, width: nat)
    requires
        printable(text),
        text.len() <= width,
    ensures
        printable(right_justified(text, width)),
        right_justified(text, width).len() == width,
{
    let cells = right_justified(text, width);
    let pad = width - text.len();
    assert forall|i: int| 0 <= i < cells.len() implies has_glyph(#[trigger] cells[i]) by {
        if i >= pad {
            assert(cells[i] == text[i - pad]);
        }
    }
}

/// The font has a glyph for every character of an integer's text.
pub proof fn lemma_integer_text_printable(negative: bool, magnitude: nat)
    ensures
        printable(integer_text(negative, magnitude)),
{
    lemma_digits_are_digits(magnitude);
    let text = integer_text(negative, magnitude);
    assert forall|i: int| 0 <= i < text.len() implies has_glyph(#[trigger] text[i]) by {
        if negative && i > 0 {
            assert(text[i] == decimal_digits(magnitude)[i - 1]);
        }
    }
}

/// One step of writing a number from its last digit leftward. Before the
/// step the digits of `rest` are still to be written and what follows them
/// stands in the cells from `prev` to `end`; the step puts the last digit of
/// `rest` into the cell before `prev`. After it the digits of `rest / 10` are
/// still to be written, or none if that is zero, and the cells outside the
/// number are as they were.
pub proof fn lemma_digit_written(
    initial: Seq<u8>,
    before: Seq<u8>,
    after: Seq<u8>,
    prev: int,
    end: int,
    rest: nat,
    digits: Seq<u8>,
)
    requires
        0 < prev <= end <= before.len(),
        before.len() == initial.len(),
        digits == decimal_digits(rest) + before.subrange(prev, end),
        decimal_digits(rest).len() <= prev,
        before.subrange(0, prev) == initial.subrange(0, prev),
        before.subrange(end, before.len() as int) == initial.subrange(end, before.len() as int),
        after == before.update(prev - 1, digit_char(rest % 10)),
    ensures
        rest / 10 > 0 ==> digits == decimal_digits(rest / 10) + after.subrange(prev - 1, end)
            && decimal_digits(rest / 10).len() < prev,
        rest / 10 == 0 ==> digits == after.subrange(prev - 1, end),
        after.subrange(0, prev - 1) == initial.subrange(0, prev - 1),
        after.subrange(end, after.len() as int) == initial.subrange(end, after.len() as int),
{
    assert(after.subrange(prev - 1, end) =~= seq![digit_char(rest % 10)] + before.subrange(
        prev,
        end,
    ));
    assert(after.subrange(0, prev - 1) =~= before.subrange(0, prev).subrange(0, prev - 1));
    assert(initial.subrange(0, prev - 1) =~= initial.subrange(0, prev).subrange(0, prev - 1));
    assert(after.subrange(end, after.len() as int) =~= before.subrange(end, before.len() as int));
    if rest >= 10 {
        assert(digits =~= decimal_digits(rest / 10) + after.subrange(prev - 1, end));
    } else {
        assert(digits =~= after.subrange(prev - 1, end));
    }
}

/// One step of writing a fixed count of digits from the last leftward: as
/// [`lemma_digit_written`], with `remaining` digits of `rest` still to be
/// written before the step and one fewer of `rest / 10` after it.
pub proof fn lemma_padded_digit_written(
    initial: Seq<u8>,
    before: Seq<u8>,
    after: Seq<u8>,
    prev: int,
    end: int,
    rest: nat,
    remaining: nat,
    digits: Seq<u8>,
)
    requires
        0 < prev <= end <= before.len(),
        before.len() == initial.len(),
        remaining > 0,
        digits == padded_digits(rest, remaining) + before.subrange(prev, end),
        before.subrange(0, prev) == initial.subrange(0, prev),
        before.subrange(end, before.len() as int) == initial.subrange(end, before.len() as int),
        after == before.update(prev - 1, digit_char(rest % 10)),
    ensures
        digits == padded_digits(rest / 10, (remaining - 1) as nat) + after.subrange(prev - 1, end),
        after.subrange(0, prev - 1) == initial.subrange(0, prev - 1),
        after.subrange(end, after.len() as int) == initial.subrange(end, after.len() as int),
{
    assert(after.subrange(prev - 1, end) =~= seq![digit_char(rest % 10)] + before.subrange(
        prev,
        end,
    ));
    assert(after.subrange(0, prev - 1) =~= before.subrange(0, prev).subrange(0, prev - 1));
    assert(initial.subrange(0, prev - 1) =~= initial.subrange(0, prev).subrange(0, prev - 1));
    assert(after.subrange(end, after.len() as int) =~= before.subrange(end, before.len() as int));
    assert(digits =~= padded_digits(rest / 10, (remaining - 1) as nat) + after.subrange(
        prev - 1,
        end,
    ));
}

/// Cells are what stands before a stretch, in it and after it.
pub proof fn lemma_cells_split(cells: Seq<u8>, from: int, to: int)
    requires
        0 <= from <= to <= cells.len(),
    ensures
        cells == cells.subrange(0, from) + cells.subrange(from, to) + cells.subrange(
            to,
            cells.len() as int,
        ),
{
    assert(cells =~= cells.subrange(0, from) + cells.subrange(from, to) + cells.subrange(
        to,
        cells.len() as int,
    ));
}

} // verus!
