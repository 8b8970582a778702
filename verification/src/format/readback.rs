//! Reading a number back from the cells it was printed in.

use super::integer::{
    fits_signed, fits_unsigned, lemma_signed_text_fits, lemma_unsigned_text_fits, signed_text,
};
use super::text::{
    decimal_digits, digit_char, lemma_digits_are_digits, lemma_digits_fit, right_justified,
    DIGIT_ZERO, MINUS, SPACE,
};
use vstd::prelude::*;

verus! {

/// The number that a run of decimal digits spells.
pub open spec fn digits_value(digits: Seq<u8>) -> nat
    decreases digits.len(),
{
    if digits.len() == 0 {
        0
    } else {
        digits_value(digits.drop_last()) * 10 + (digits.last() - DIGIT_ZERO) as nat
    }
}

/// `cells` without the blanks at its start.
pub open spec fn trim_blanks(cells: Seq<u8>) -> Seq<u8>
    decreases cells.len(),
{
    if cells.len() > 0 && cells[0] == SPACE {
        trim_blanks(cells.drop_first())
    } else {
        cells
    }
}

/// The integer read back from the cells of a display: blanks are skipped, a
/// minus sign negates, and the rest is read as decimal digits.
pub open spec fn parse_cells(cells: Seq<u8>) -> int {
    let text = trim_blanks(cells);
    if text.len() > 0 && text[0] == MINUS {
        -(digits_value(text.drop_first()) as int)
    } else {
        digits_value(text) as int
    }
}

/// Reading a number's digits gives the number back.
pub proof fn lemma_digits_value(m: nat)
    ensures
        digits_value(decimal_digits(m)) == m,
    decreases m,
{
    let digits = decimal_digits(m);
    if m >= 10 {
        lemma_digits_value(m / 10);
        assert(digits.drop_last() =~= decimal_digits(m / 10));
    } else {
        assert(digits.drop_last() =~= Seq::<u8>::empty());
        assert(digits_value(digits.drop_last()) == 0);
    }
    assert(digits.last() == digit_char(m % 10));
    assert(digits_value(digits) == digits_value(digits.drop_last()) * 10 + (digits.last()
        - DIGIT_ZERO) as nat);
}

/// Trimming removes exactly the padding of a right-justified text that does
/// not itself start with a blank.
pub proof fn lemma_trim_right_justified(text: Seq<u8>, width: nat)
    requires
        0 < text.len() <= width,
        text[0] != SPACE,
    ensures
        trim_blanks(right_justified(text, width)) == text,
    decreases width,
{
    let cells = right_justified(text, width);
    if text.len() == width {
        assert(cells =~= text);
    } else {
        assert(cells.drop_first() =~= right_justified(text, (width - 1) as nat));
        lemma_trim_right_justified(text, (width - 1) as nat);
    }
}

/// A signed value that fits is read back from its cells unchanged.
pub proof fn lemma_signed_round_trip(value: int, width: nat)
    requires
        fits_signed(value, width),
    ensures
        parse_cells(right_justified(signed_text(value), width)) == value,
{
    let text = signed_text(value);
    let magnitude: nat = if value < 0 {
        (-value) as nat
    } else {
        value as nat
    };
    lemma_signed_text_fits(value, width);
    lemma_digits_are_digits(magnitude);
    lemma_digits_value(magnitude);
    assert(decimal_digits(magnitude).len() >= 1) by {
        lemma_digits_fit(magnitude, 1);
    }
    if value < 0 {
        assert(text[0] == MINUS);
        assert(text.drop_first() =~= decimal_digits(magnitude));
    } else {
        assert(text[0] == decimal_digits(magnitude)[0]);
    }
    lemma_trim_right_justified(text, width);
}

/// An unsigned value that fits is read back from its cells unchanged.
pub proof fn lemma_unsigned_round_trip(value: nat, width: nat)
    requires
        fits_unsigned(value, width),
    ensures
        parse_cells(right_justified(decimal_digits(value), width)) == value,
{
    let text = decimal_digits(value);
    lemma_unsigned_text_fits(value, width);
    lemma_digits_are_digits(value);
    lemma_digits_value(value);
    assert(text[0] != SPACE && text[0] != MINUS);
    lemma_trim_right_justified(text, width);
}

} // verus!
