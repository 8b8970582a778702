//! Integers in a fixed number of cells, on 32-bit and on 64-bit arithmetic.

use super::text::{
    blank_cells, decimal_digits, integer_text, lemma_cells_split, lemma_digit_written,
    lemma_digits_fit, lemma_pow10_increases, lemma_pow10_positive, pow10, right_justified,
    DIGIT_ZERO, MINUS,
};
use vstd::prelude::*;

verus! {

/// The largest unsigned value that `chars` cells can show, `10^chars - 1`,
/// or `u32::MAX` where that is beyond 32 bits.
pub fn max_unsigned_for_chars(chars: usize) -> (r: u32)
    ensures
        r == if pow10(chars as nat) - 1 <= u32::MAX {
            pow10(chars as nat) - 1
        } else {
            u32::MAX as int
        },
{
    let mut power_of_10: u32 = 1;
    let mut i: usize = 0;
    while i < chars
        invariant
            i <= chars,
            power_of_10 == pow10(i as nat),
        decreases chars - i,
    {
        match power_of_10.checked_mul(10) {
            Some(next) => {
                power_of_10 = next;
            },
            None => {
                proof {
                    lemma_pow10_increases((i + 1) as nat, chars as nat);
                }
                return u32::MAX;
            },
        }
        i += 1;
    }
    proof {
        lemma_pow10_positive(chars as nat);
    }
    power_of_10 - 1
}

/// Writes the decimal digits of `value` into the cells that end before
/// `end`, from the last digit leftward, and returns where they start.
pub fn put_digits_32(buf: &mut Vec<u8>, end: usize, value: u32) -> (start: usize)
    requires
        end <= old(buf).len(),
        decimal_digits(value as nat).len() <= end,
    ensures
        start + decimal_digits(value as nat).len() == end,
        final(buf)@ == old(buf)@.subrange(0, start as int) + decimal_digits(value as nat) + old(
            buf,
        )@.subrange(end as int, old(buf).len() as int),
{
    let ghost digits = decimal_digits(value as nat);
    let mut index: usize = end;
    let mut rest: u32 = value;
    let mut more: bool = true;
    assert(digits =~= decimal_digits(rest as nat) + buf@.subrange(index as int, end as int));
    while more
        invariant
            index <= end <= buf.len(),
            buf.len() == old(buf).len(),
            digits == decimal_digits(value as nat),
            more ==> digits == decimal_digits(rest as nat) + buf@.subrange(
                index as int,
                end as int,
            ) && 1 <= decimal_digits(rest as nat).len() <= index,
            !more ==> digits == buf@.subrange(index as int, end as int),
            buf@.subrange(0, index as int) == old(buf)@.subrange(0, index as int),
            buf@.subrange(end as int, buf.len() as int) == old(buf)@.subrange(
                end as int,
                buf.len() as int,
            ),
        decreases rest, (if more { 1int } else { 0int }),
    {
        let ghost before = buf@;
        buf.set(index - 1, DIGIT_ZERO + (rest % 10) as u8);
        proof {
            lemma_digit_written(
                old(buf)@,
                before,
                buf@,
                index as int,
                end as int,
                rest as nat,
                digits,
            );
            lemma_digits_fit((rest / 10) as nat, 1);
        }
        index = index - 1;
        rest = rest / 10;
        more = rest > 0;
    }
    proof {
        lemma_cells_split(buf@, index as int, end as int);
    }
    index
}

/// Formats sign and magnitude on 32-bit arithmetic: the digits are written
/// from the rightmost cell leftward, then the minus sign if there is one; the
/// cells left of that stay blank.
pub fn format_int_32bit(negative: bool, magnitude: u32, width: usize) -> (buf: Vec<u8>)
    requires
        integer_text(negative, magnitude as nat).len() <= width,
    ensures
        buf@ == right_justified(integer_text(negative, magnitude as nat), width as nat),
{
    let mut buf: Vec<u8> = blank_cells(width);
    let mut index: usize = put_digits_32(&mut buf, width, magnitude);
    if negative {
        index = index - 1;
        buf.set(index, MINUS);
    }
    assert(buf@ =~= right_justified(integer_text(negative, magnitude as nat), width as nat));
    buf
}

/// Whether a signed value can be shown in `width` cells. The cell before the
/// digits is kept for the sign whether the value is negative or not, so the
/// magnitude may be at most `10^(width-1) - 1`.
pub open spec fn fits_signed(value: int, width: nat) -> bool {
    width >= 1 && -(pow10((width - 1) as nat) - 1) <= value <= pow10((width - 1) as nat) - 1
}

/// Whether an unsigned value can be shown in `width` cells: it may be at most
/// `10^width - 1`.
pub open spec fn fits_unsigned(value: nat, width: nat) -> bool {
    width >= 1 && value <= pow10(width) - 1
}

/// The text of a signed value: a minus sign if it is negative, then the
/// digits of its magnitude.
pub open spec fn signed_text(value: int) -> Seq<u8> {
    if value < 0 {
        integer_text(true, (-value) as nat)
    } else {
        integer_text(false, value as nat)
    }
}

/// A signed value that fits has a text that fits.
pub proof fn lemma_signed_text_fits(value: int, width: nat)
    requires
        fits_signed(value, width),
    ensures
        1 <= signed_text(value).len() <= width,
{
    let magnitude: nat = if value < 0 {
        (-value) as nat
    } else {
        value as nat
    };
    if width >= 2 {
        lemma_digits_fit(magnitude, (width - 1) as nat);
    } else {
        assert(magnitude == 0);
    }
}

/// An unsigned value fits exactly when its digits do.
pub proof fn lemma_unsigned_text_fits(value: nat, width: nat)
    ensures
        fits_unsigned(value, width) <==> decimal_digits(value).len() <= width,
        decimal_digits(value).len() >= 1,
{
    if width >= 1 {
        lemma_digits_fit(value, width);
    } else {
        lemma_digits_fit(value, 1);
    }
}

/// Formats a signed 32-bit value, or gives `None` if it does not fit.
pub fn format_i32(value: i32, width: usize) -> (r: Option<Vec<u8>>)
    ensures
        match r {
            Some(buf) => fits_signed(value as int, width as nat) && buf@ == right_justified(
                signed_text(value as int),
                width as nat,
            ),
            None => !fits_signed(value as int, width as nat),
        },
{
    if width == 0 {
        return None;
    }
    let max_signed: u32 = max_unsigned_for_chars(width - 1);
    let magnitude: u32 = if value >= 0 {
        value as u32
    } else if value == i32::MIN {
        0x8000_0000
    } else {
        (-value) as u32
    };
    if magnitude > max_signed {
        return None;
    }
    proof {
        lemma_pow10_positive((width - 1) as nat);
        lemma_signed_text_fits(value as int, width as nat);
    }
    Some(format_int_32bit(value < 0, magnitude, width))
}

/// Formats an unsigned 32-bit value, or gives `None` if it does not fit.
pub fn format_u32(value: u32, width: usize) -> (r: Option<Vec<u8>>)
    ensures
        match r {
            Some(buf) => fits_unsigned(value as nat, width as nat) && buf@ == right_justified(
                decimal_digits(value as nat),
                width as nat,
            ),
            None => !fits_unsigned(value as nat, width as nat),
        },
{
    if width == 0 {
        return None;
    }
    let max_unsigned: u32 = max_unsigned_for_chars(width);
    if value > max_unsigned {
        return None;
    }
    proof {
        lemma_pow10_positive(width as nat);
        lemma_unsigned_text_fits(value as nat, width as nat);
    }
    Some(format_int_32bit(false, value, width))
}

/// The largest unsigned value that `chars` cells can show, `10^chars - 1`,
/// or `u64::MAX` where that is beyond 64 bits.
pub fn max_unsigned_64_for_chars(chars: usize) -> (r: u64)
    ensures
        r == if pow10(chars as nat) - 1 <= u64::MAX {
            pow10(chars as nat) - 1
        } else {
            u64::MAX as int
        },
{
    let mut power_of_10: u64 = 1;
    let mut i: usize = 0;
    while i < chars
        invariant
            i <= chars,
            power_of_10 == pow10(i as nat),
        decreases chars - i,
    {
        match power_of_10.checked_mul(10) {
            Some(next) => {
                power_of_10 = next;
            },
            None => {
                proof {
                    lemma_pow10_increases((i + 1) as nat, chars as nat);
                }
                return u64::MAX;
            },
        }
        i += 1;
    }
    proof {
        lemma_pow10_positive(chars as nat);
    }
    power_of_10 - 1
}

/// Writes the decimal digits of `value` into the cells that end before
/// `end`, from the last digit leftward, and returns where they start.
pub fn put_digits_64(buf: &mut Vec<u8>, end: usize, value: u64) -> (start: usize)
    requires
        end <= old(buf).len(),
        decimal_digits(value as nat).len() <= end,
    ensures
        start + decimal_digits(value as nat).len() == end,
        final(buf)@ == old(buf)@.subrange(0, start as int) + decimal_digits(value as nat) + old(
            buf,
        )@.subrange(end as int, old(buf).len() as int),
{
    let ghost digits = decimal_digits(value as nat);
    let mut index: usize = end;
    let mut rest: u64 = value;
    let mut more: bool = true;
    assert(digits =~= decimal_digits(rest as nat) + buf@.subrange(index as int, end as int));
    while more
        invariant
            index <= end <= buf.len(),
            buf.len() == old(buf).len(),
            digits == decimal_digits(value as nat),
            more ==> digits == decimal_digits(rest as nat) + buf@.subrange(
                index as int,
                end as int,
            ) && 1 <= decimal_digits(rest as nat).len() <= index,
            !more ==> digits == buf@.subrange(index as int, end as int),
            buf@.subrange(0, index as int) == old(buf)@.subrange(0, index as int),
            buf@.subrange(end as int, buf.len() as int) == old(buf)@.subrange(
                end as int,
                buf.len() as int,
            ),
        decreases rest, (if more { 1int } else { 0int }),
    {
        let ghost before = buf@;
        buf.set(index - 1, DIGIT_ZERO + (rest % 10) as u8);
        proof {
            lemma_digit_written(
                old(buf)@,
                before,
                buf@,
                index as int,
                end as int,
                rest as nat,
                digits,
            );
            lemma_digits_fit((rest / 10) as nat, 1);
        }
        index = index - 1;
        rest = rest / 10;
        more = rest > 0;
    }
    proof {
        lemma_cells_split(buf@, index as int, end as int);
    }
    index
}

/// Formats sign and magnitude on 64-bit arithmetic, for displays too wide for
/// the 32-bit path.
pub fn format_int_64bit(negative: bool, magnitude: u64, width: usize) -> (buf: Vec<u8>)
    requires
        integer_text(negative, magnitude as nat).len() <= width,
    ensures
        buf@ == right_justified(integer_text(negative, magnitude as nat), width as nat),
{
    let mut buf: Vec<u8> = blank_cells(width);
    let mut index: usize = put_digits_64(&mut buf, width, magnitude);
    if negative {
        index = index - 1;
        buf.set(index, MINUS);
    }
    assert(buf@ =~= right_justified(integer_text(negative, magnitude as nat), width as nat));
    buf
}

/// Formats a signed 64-bit value, or gives `None` if it does not fit.
pub fn format_i64(value: i64, width: usize) -> (r: Option<Vec<u8>>)
    ensures
        match r {
            Some(buf) => fits_signed(value as int, width as nat) && buf@ == right_justified(
                signed_text(value as int),
                width as nat,
            ),
            None => !fits_signed(value as int, width as nat),
        },
{
    if width == 0 {
        return None;
    }
    let max_signed: u64 = max_unsigned_64_for_chars(width - 1);
    let magnitude: u64 = if value >= 0 {
        value as u64
    } else if value == i64::MIN {
        0x8000_0000_0000_0000
    } else {
        (-value) as u64
    };
    if magnitude > max_signed {
        return None;
    }
    proof {
        lemma_pow10_positive((width - 1) as nat);
        lemma_signed_text_fits(value as int, width as nat);
    }
    Some(format_int_64bit(value < 0, magnitude, width))
}

/// Formats an unsigned 64-bit value, or gives `None` if it does not fit.
pub fn format_u64(value: u64, width: usize) -> (r: Option<Vec<u8>>)
    ensures
        match r {
            Some(buf) => fits_unsigned(value as nat, width as nat) && buf@ == right_justified(
                decimal_digits(value as nat),
                width as nat,
            ),
            None => !fits_unsigned(value as nat, width as nat),
        },
{
    if width == 0 {
        return None;
    }
    let max_unsigned: u64 = max_unsigned_64_for_chars(width);
    if value > max_unsigned {
        return None;
    }
    proof {
        lemma_pow10_positive(width as nat);
        lemma_unsigned_text_fits(value as nat, width as nat);
    }
    Some(format_int_64bit(false, value, width))
}

/// `num_traits::ToPrimitive::to_i32` on an `i64`: the value itself where it
/// lies in the range of `i32`, `None` where it does not.
#[verifier::external_body]
fn narrow_to_i32(value: i64) -> (r: Option<i32>)
    ensures
        r == if i32::MIN <= value <= i32::MAX {
            Some(value as i32)
        } else {
            None::<i32>
        },
{
    num_traits::ToPrimitive::to_i32(&value)
}

/// `num_traits::ToPrimitive::to_u32` on a `u64`: the value itself where it
/// is at most `u32::MAX`, `None` where it is not.
#[verifier::external_body]
fn narrow_to_u32(value: u64) -> (r: Option<u32>)
    ensures
        r == if value <= u32::MAX {
            Some(value as u32)
        } else {
            None::<u32>
        },
{
    num_traits::ToPrimitive::to_u32(&value)
}

/// Formats a signed value, or gives `None` if it does not fit. Widths up to
/// ten cells are served on 32-bit arithmetic: what fits there fits in `i32`.
pub fn format_int(value: i64, width: usize) -> (r: Option<Vec<u8>>)
    ensures
        match r {
            Some(buf) => fits_signed(value as int, width as nat) && buf@ == right_justified(
                signed_text(value as int),
                width as nat,
            ),
            None => !fits_signed(value as int, width as nat),
        },
{
    if width <= 10 {
        match narrow_to_i32(value) {
            Some(small) => format_i32(small, width),
            None => {
                proof {
                    if width >= 1 {
                        lemma_pow10_increases((width - 1) as nat, 9);
                        assert(pow10(9) == 1_000_000_000) by {
                            reveal_with_fuel(pow10, 10);
                        }
                    }
                }
                None
            },
        }
    } else {
        format_i64(value, width)
    }
}

/// Formats an unsigned value, or gives `None` if it does not fit. Widths up
/// to nine cells are served on 32-bit arithmetic: what fits there fits in
/// `u32`.
pub fn format_uint(value: u64, width: usize) -> (r: Option<Vec<u8>>)
    ensures
        match r {
            Some(buf) => fits_unsigned(value as nat, width as nat) && buf@ == right_justified(
                decimal_digits(value as nat),
                width as nat,
            ),
            None => !fits_unsigned(value as nat, width as nat),
        },
{
    if width <= 9 {
        match narrow_to_u32(value) {
            Some(small) => format_u32(small, width),
            None => {
                proof {
                    lemma_pow10_increases(width as nat, 9);
                    assert(pow10(9) == 1_000_000_000) by {
                        reveal_with_fuel(pow10, 10);
                    }
                }
                None
            },
        }
    } else {
        format_u64(value, width)
    }
}

} // verus!
