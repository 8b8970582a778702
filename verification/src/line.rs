//! The output lines of the display and the operations driven on them.

use vstd::prelude::*;

verus! {

/// The lines a display is wired to. Data, register select, clock and chip
/// enable are always there; blank, oscillator select and reset may be left
/// unconnected.
#[derive(Debug, Clone, Copy, PartialEq, Eq, Structural)]
pub enum Line {
    Data,
    RegisterSelect,
    Clock,
    ChipEnable,
    Blank,
    OscSelect,
    Reset,
}

/// The level a line is driven to.
#[derive(Debug, Clone, Copy, PartialEq, Eq, Structural)]
pub enum Level {
    Low,
    High,
}

/// One operation on one line: drive it low or drive it high.
#[derive(Debug, Clone, Copy, PartialEq, Eq, Structural)]
pub struct LineOp {
    pub line: Line,
    pub level: Level,
}

/// The register of the device that a transfer addresses.
#[derive(Debug, Clone, Copy, PartialEq, Eq, Structural)]
pub enum Register {
    /// The shift register of pixel columns.
    DotData,
    /// The control word register.
    Control,
}

/// Whether bit `index` of `byte` is set, counting from the most significant
/// bit, which is the first on the wire.
pub open spec fn bit_at(byte: u8, index: u8) -> bool {
    byte & (0x80u8 >> index) != 0
}

/// The level that stands for a bit on the data line.
pub open spec fn bit_level(bit: bool) -> Level {
    if bit {
        Level::High
    } else {
        Level::Low
    }
}

/// What opens a transfer: clock high, register select low for dot data or
/// high for a control word, then chip enable low.
pub open spec fn enter_ops(register: Register) -> Seq<LineOp> {
    seq![
        LineOp { line: Line::Clock, level: Level::High },
        LineOp {
            line: Line::RegisterSelect,
            level: match register {
                Register::DotData => Level::Low,
                Register::Control => Level::High,
            },
        },
        LineOp { line: Line::ChipEnable, level: Level::Low },
    ]
}

/// What shifts one bit in: clock low, the bit on the data line, clock high.
pub open spec fn bit_ops(bit: bool) -> Seq<LineOp> {
    seq![
        LineOp { line: Line::Clock, level: Level::Low },
        LineOp { line: Line::Data, level: bit_level(bit) },
        LineOp { line: Line::Clock, level: Level::High },
    ]
}

/// What shifts in the first `count` bits of `byte`, most significant first.
pub open spec fn bits_ops(byte: u8, count: nat) -> Seq<LineOp>
    decreases count,
{
    if count == 0 {
        Seq::empty()
    } else {
        bits_ops(byte, (count - 1) as nat) + bit_ops(bit_at(byte, (count - 1) as u8))
    }
}

/// What shifts in one byte: its eight bits, most significant first.
pub open spec fn byte_ops(byte: u8) -> Seq<LineOp> {
    bits_ops(byte, 8)
}

/// What shifts in a run of bytes, one after the other.
pub open spec fn bytes_ops(bytes: Seq<u8>) -> Seq<LineOp>
    decreases bytes.len(),
{
    if bytes.len() == 0 {
        Seq::empty()
    } else {
        bytes_ops(bytes.drop_last()) + byte_ops(bytes.last())
    }
}

/// What closes a transfer: chip enable high, which latches what was shifted
/// in, then clock low.
pub open spec fn end_ops() -> Seq<LineOp> {
    seq![
        LineOp { line: Line::ChipEnable, level: Level::High },
        LineOp { line: Line::Clock, level: Level::Low },
    ]
}

/// A whole transfer of `bytes` to `register`.
pub open spec fn transfer_ops(register: Register, bytes: Seq<u8>) -> Seq<LineOp> {
    enter_ops(register) + bytes_ops(bytes) + end_ops()
}

/// Each bit takes three line operations.
pub proof fn lemma_bits_ops_len(byte: u8, count: nat)
    ensures
        bits_ops(byte, count).len() == 3 * count,
    decreases count,
{
    if count > 0 {
        lemma_bits_ops_len(byte, (count - 1) as nat);
    }
}

/// Each byte takes twenty-four line operations.
pub proof fn lemma_bytes_ops_len(bytes: Seq<u8>)
    ensures
        bytes_ops(bytes).len() == 24 * bytes.len(),
    decreases bytes.len(),
{
    if bytes.len() > 0 {
        lemma_bytes_ops_len(bytes.drop_last());
        lemma_bits_ops_len(bytes.last(), 8);
    }
}

/// Shifting in two runs of bytes one after the other is shifting in their
/// concatenation.
pub proof fn lemma_bytes_ops_concat(a: Seq<u8>, b: Seq<u8>)
    ensures
        bytes_ops(a + b) == bytes_ops(a) + bytes_ops(b),
    decreases b.len(),
{
    if b.len() == 0 {
        assert(a + b =~= a);
        assert(bytes_ops(a) + bytes_ops(b) =~= bytes_ops(a));
    } else {
        lemma_bytes_ops_concat(a, b.drop_last());
        assert((a + b).drop_last() =~= a + b.drop_last());
        assert((a + b).last() == b.last());
        assert(bytes_ops(a + b) =~= bytes_ops(a) + bytes_ops(b));
    }
}

/// The levels of the data and clock lines, which is all that the shift
/// register of a device sees.
pub struct ShiftLines {
    pub data: Level,
    pub clock: Level,
}

/// The lines after one operation.
pub open spec fn lines_after_op(lines: ShiftLines, op: LineOp) -> ShiftLines {
    match op.line {
        Line::Data => ShiftLines { data: op.level, ..lines },
        Line::Clock => ShiftLines { clock: op.level, ..lines },
        _ => lines,
    }
}

/// The lines after a run of operations.
pub open spec fn lines_after(lines: ShiftLines, ops: Seq<LineOp>) -> ShiftLines
    decreases ops.len(),
{
    if ops.len() == 0 {
        lines
    } else {
        lines_after_op(lines_after(lines, ops.drop_last()), ops.last())
    }
}

/// The bits that a device shifts in during a run of operations: at each
/// change of the clock from low to high, the level of the data line.
pub open spec fn shifted_bits(lines: ShiftLines, ops: Seq<LineOp>) -> Seq<bool>
    decreases ops.len(),
{
    if ops.len() == 0 {
        Seq::empty()
    } else {
        let before = lines_after(lines, ops.drop_last());
        let earlier = shifted_bits(lines, ops.drop_last());
        if ops.last().line == Line::Clock && ops.last().level == Level::High && before.clock
            == Level::Low {
            earlier.push(before.data == Level::High)
        } else {
            earlier
        }
    }
}

/// The number that a run of bits spells, the first bit being the most
/// significant.
pub open spec fn bits_value(bits: Seq<bool>) -> nat
    decreases bits.len(),
{
    if bits.len() == 0 {
        0
    } else {
        2 * bits_value(bits.drop_last()) + if bits.last() {
            1nat
        } else {
            0nat
        }
    }
}

/// The lines after two runs of operations are the lines after the second,
/// started where the first left them.
pub proof fn lemma_lines_after_concat(lines: ShiftLines, a: Seq<LineOp>, b: Seq<LineOp>)
    ensures
        lines_after(lines, a + b) == lines_after(lines_after(lines, a), b),
    decreases b.len(),
{
    if b.len() == 0 {
        assert(a + b =~= a);
    } else {
        assert((a + b).drop_last() =~= a + b.drop_last());
        lemma_lines_after_concat(lines, a, b.drop_last());
    }
}

/// What is shifted in during two runs of operations is what is shifted in
/// during the first, then what is shifted in during the second from where the
/// first left the lines.
pub proof fn lemma_shifted_bits_concat(lines: ShiftLines, a: Seq<LineOp>, b: Seq<LineOp>)
    ensures
        shifted_bits(lines, a + b) == shifted_bits(lines, a) + shifted_bits(
            lines_after(lines, a),
            b,
        ),
    decreases b.len(),
{
    if b.len() == 0 {
        assert(a + b =~= a);
        assert(shifted_bits(lines, a) + shifted_bits(lines_after(lines, a), b) =~= shifted_bits(
            lines,
            a,
        ));
    } else {
        assert((a + b).drop_last() =~= a + b.drop_last());
        assert((a + b).last() == b.last());
        lemma_shifted_bits_concat(lines, a, b.drop_last());
        lemma_lines_after_concat(lines, a, b.drop_last());
        assert(shifted_bits(lines, a + b) =~= shifted_bits(lines, a) + shifted_bits(
            lines_after(lines, a),
            b,
        ));
    }
}

/// The three operations of a bit make the device shift in that bit, whatever
/// the lines were at, and leave the clock high.
pub proof fn lemma_bit_is_shifted_in(lines: ShiftLines, bit: bool)
    ensures
        shifted_bits(lines, bit_ops(bit)) == seq![bit],
        lines_after(lines, bit_ops(bit)).clock == Level::High,
{
    let ops = bit_ops(bit);
    let two = ops.drop_last();
    let one = two.drop_last();
    assert(one.drop_last() =~= Seq::<LineOp>::empty());
    assert(lines_after(lines, one.drop_last()) == lines);
    assert(shifted_bits(lines, one.drop_last()) =~= Seq::<bool>::empty());
    assert(one.last() == LineOp { line: Line::Clock, level: Level::Low });
    assert(two.last() == LineOp { line: Line::Data, level: bit_level(bit) });
    assert(ops.last() == LineOp { line: Line::Clock, level: Level::High });
    assert(shifted_bits(lines, one) =~= Seq::<bool>::empty());
    assert(shifted_bits(lines, two) =~= Seq::<bool>::empty());
    assert(lines_after(lines, two).clock == Level::Low);
    assert(lines_after(lines, two).data == bit_level(bit));
    assert(shifted_bits(lines, ops) =~= seq![bit]);
}

/// The operations of the first `count` bits of a byte make the device shift
/// in exactly those bits, in their order.
pub proof fn lemma_bits_are_shifted_in(lines: ShiftLines, byte: u8, count: nat)
    requires
        count <= 8,
    ensures
        shifted_bits(lines, bits_ops(byte, count)) == Seq::new(
            count,
            |i: int| bit_at(byte, i as u8),
        ),
    decreases count,
{
    if count == 0 {
        assert(shifted_bits(lines, bits_ops(byte, count)) =~= Seq::new(
            count,
            |i: int| bit_at(byte, i as u8),
        ));
    } else {
        let earlier = bits_ops(byte, (count - 1) as nat);
        let bit = bit_at(byte, (count - 1) as u8);
        lemma_bits_are_shifted_in(lines, byte, (count - 1) as nat);
        lemma_shifted_bits_concat(lines, earlier, bit_ops(bit));
        lemma_bit_is_shifted_in(lines_after(lines, earlier), bit);
        assert(shifted_bits(lines, bits_ops(byte, count)) =~= Seq::new(
            count,
            |i: int| bit_at(byte, i as u8),
        ));
    }
}

/// The bits of a byte, first the most significant, spell the byte.
pub proof fn lemma_bits_spell_byte(byte: u8)
    ensures
        bits_value(Seq::new(8, |i: int| bit_at(byte, i as u8))) == byte,
{
    let bits = Seq::new(8, |i: int| bit_at(byte, i as u8));
    let b0: nat = if bits[0] { 1 } else { 0 };
    let b1: nat = if bits[1] { 1 } else { 0 };
    let b2: nat = if bits[2] { 1 } else { 0 };
    let b3: nat = if bits[3] { 1 } else { 0 };
    let b4: nat = if bits[4] { 1 } else { 0 };
    let b5: nat = if bits[5] { 1 } else { 0 };
    let b6: nat = if bits[6] { 1 } else { 0 };
    let b7: nat = if bits[7] { 1 } else { 0 };
    let s7 = bits.drop_last();
    let s6 = s7.drop_last();
    let s5 = s6.drop_last();
    let s4 = s5.drop_last();
    let s3 = s4.drop_last();
    let s2 = s3.drop_last();
    let s1 = s2.drop_last();
    assert(s1.drop_last() =~= Seq::<bool>::empty());
    assert(bits_value(s1.drop_last()) == 0);
    assert(s1.len() == 1 && s1.last() == bits[0]);
    assert(s2.last() == bits[1] && s3.last() == bits[2] && s4.last() == bits[3]);
    assert(s5.last() == bits[4] && s6.last() == bits[5] && s7.last() == bits[6]);
    assert(bits_value(s1) == b0);
    assert(bits_value(s2) == 2 * b0 + b1);
    assert(bits_value(s3) == 2 * bits_value(s2) + b2);
    assert(bits_value(s4) == 2 * bits_value(s3) + b3);
    assert(bits_value(s5) == 2 * bits_value(s4) + b4);
    assert(bits_value(s6) == 2 * bits_value(s5) + b5);
    assert(bits_value(s7) == 2 * bits_value(s6) + b6);
    assert(bits_value(bits) == 2 * bits_value(s7) + b7);
    assert(byte == (if byte & (0x80u8 >> 0u8) != 0 { 128int } else { 0int }) + (if byte & (0x80u8
        >> 1u8) != 0 { 64int } else { 0int }) + (if byte & (0x80u8 >> 2u8) != 0 { 32int } else {
        0int
    }) + (if byte & (0x80u8 >> 3u8) != 0 { 16int } else { 0int }) + (if byte & (0x80u8 >> 4u8)
        != 0 { 8int } else { 0int }) + (if byte & (0x80u8 >> 5u8) != 0 { 4int } else { 0int }) + (
    if byte & (0x80u8 >> 6u8) != 0 { 2int } else { 0int }) + (if byte & (0x80u8 >> 7u8) != 0 {
        1int
    } else {
        0int
    })) by (bit_vector);
}

/// A device that is sent a byte shifts in the eight bits that spell it,
/// whatever the data and clock lines were at before.
pub proof fn lemma_byte_is_shifted_in(lines: ShiftLines, byte: u8)
    ensures
        shifted_bits(lines, byte_ops(byte)).len() == 8,
        bits_value(shifted_bits(lines, byte_ops(byte))) == byte,
{
    lemma_bits_are_shifted_in(lines, byte, 8);
    lemma_bits_spell_byte(byte);
}

} // verus!
