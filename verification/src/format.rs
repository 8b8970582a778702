//! The number formatter: integers and floating-point readings as
//! right-justified text in a fixed number of character cells.

pub mod decimal;
pub mod integer;
pub mod readback;
pub mod text;

pub use decimal::{
    count_digits, decimal_fits, decimal_text, fixed_text, format_decimal, format_fixed,
    infinity_text, lemma_decimal_text_printable, lemma_digits_of_128_bits, nan_text,
    put_digits_128, put_padded_digits, whole_part, Decimal,
};
pub use integer::{
    fits_signed, fits_unsigned, format_i32, format_i64, format_int, format_int_32bit,
    format_int_64bit, format_u32, format_u64, format_uint, lemma_signed_text_fits,
    lemma_unsigned_text_fits, max_unsigned_64_for_chars, max_unsigned_for_chars, put_digits_32,
    put_digits_64, signed_text,
};
pub use readback::{
    digits_value, lemma_digits_value, lemma_signed_round_trip, lemma_trim_right_justified,
    lemma_unsigned_round_trip, parse_cells, trim_blanks,
};
pub use text::{
    blank_cells, decimal_digits, digit_char, integer_text, lemma_cells_split,
    lemma_digit_written, lemma_digits_are_digits, lemma_digits_fit,
    lemma_integer_text_printable, lemma_padded_digit_written, lemma_padded_digits_are_digits,
    lemma_padded_len, lemma_pow10_increases, lemma_pow10_positive,
    lemma_right_justified_printable, padded_digits, pow10, right_justified, DIGIT_ZERO, MINUS,
    PLUS, POINT, SPACE,
};
