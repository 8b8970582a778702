//! The display: its state, the transfers that each request starts, and how
//! the state moves on as the line operations of a transfer are answered.

use crate::control_word::{
    lemma_brightness_in_word, lemma_peak_current_in_word, ControlWord0, ControlWord1,
    DataOutMode, ExtOscPrescaler, PeakCurrent, SleepMode, Word0Fields, Word1Fields,
};
use crate::error::Hcms29xxError;
use crate::font5x7::{
    ascii_start, font_ascii_start_index, glyph, glyph_columns, glyph_run, has_glyph,
    lemma_early_stop, lemma_glyph_run_stops, lemma_printable_in_full, text_columns, CHAR_WIDTH,
};
use crate::format::{
    decimal_digits, decimal_fits, decimal_text, fits_signed, fits_unsigned, format_decimal,
    format_i32, format_int, format_u32, format_uint, infinity_text,
    lemma_decimal_text_printable, lemma_integer_text_printable,
    lemma_right_justified_printable, lemma_signed_round_trip, lemma_unsigned_round_trip,
    nan_text, parse_cells, right_justified, signed_text, Decimal,
};
use crate::line::{
    bytes_ops, end_ops, enter_ops, lemma_bytes_ops_concat, lemma_bytes_ops_len, transfer_ops,
    Level, Line, LineOp, Register,
};
use crate::transfer::Transfer;
use vstd::prelude::*;

verus! {

/// Characters on one device of a chain.
pub const DEVICE_CHARS: usize = 4;

/// The fewest characters a display can have: one device.
pub const MIN_CHARS: usize = 4;

/// What brings the lines to their idle levels before a display is used:
/// data low, chip enable high, and of the optional lines those that are
/// connected: blank high (display off), oscillator select high (internal
/// oscillator), reset high (not in reset).
pub open spec fn init_ops(blank: bool, osc_sel: bool, reset: bool) -> Seq<LineOp> {
    seq![
        LineOp { line: Line::Data, level: Level::Low },
        LineOp { line: Line::ChipEnable, level: Level::High },
    ] + (if blank {
        seq![LineOp { line: Line::Blank, level: Level::High }]
    } else {
        Seq::empty()
    }) + (if osc_sel {
        seq![LineOp { line: Line::OscSelect, level: Level::High }]
    } else {
        Seq::empty()
    }) + (if reset {
        seq![LineOp { line: Line::Reset, level: Level::High }]
    } else {
        Seq::empty()
    })
}

/// What a display under construction holds.
pub struct SetupState {
    pub num_chars: nat,
    pub blank: bool,
    pub osc_sel: bool,
    pub reset: bool,
    /// The line operations still to be carried out.
    pub pending: Seq<LineOp>,
    /// Whether a line operation has failed.
    pub failed: bool,
}

impl SetupState {
    /// The state after the operation at the head of `pending` was answered.
    /// A failure ends the construction: nothing more is attempted. With no
    /// operation pending there is nothing to answer.
    pub open spec fn acknowledged(self, ok: bool) -> SetupState {
        if self.pending.len() == 0 {
            self
        } else if ok {
            SetupState { pending: self.pending.drop_first(), ..self }
        } else {
            SetupState { pending: Seq::empty(), failed: true, ..self }
        }
    }

    /// Whether every line operation was carried out and none failed.
    pub open spec fn finished(self) -> bool {
        !self.failed && self.pending.len() == 0
    }
}

/// The construction of a display: the line operations that must succeed
/// before there is an instance.
pub struct Setup {
    num_chars: usize,
    blank: bool,
    osc_sel: bool,
    reset: bool,
    transfer: Transfer,
    failed: bool,
}

impl View for Setup {
    type V = SetupState;

    closed spec fn view(&self) -> SetupState {
        SetupState {
            num_chars: self.num_chars as nat,
            blank: self.blank,
            osc_sel: self.osc_sel,
            reset: self.reset,
            pending: self.transfer@,
            failed: self.failed,
        }
    }
}

impl Setup {
    /// Starts the construction of a display of `num_chars` characters; the
    /// flags say which of the optional lines are connected. There is no
    /// display of fewer than four characters.
    pub fn new(num_chars: usize, blank: bool, osc_sel: bool, reset: bool) -> (r: Option<Setup>)
        ensures
            match r {
                Some(setup) => num_chars >= MIN_CHARS && setup@ == (SetupState {
                    num_chars: num_chars as nat,
                    blank,
                    osc_sel,
                    reset,
                    pending: init_ops(blank, osc_sel, reset),
                    failed: false,
                }),
                None => num_chars < MIN_CHARS,
            },
    {
        if num_chars < MIN_CHARS {
            return None;
        }
        let mut transfer = Transfer::new();
        transfer.drive(Line::Data, Level::Low);
        transfer.drive(Line::ChipEnable, Level::High);
        if blank {
            transfer.drive(Line::Blank, Level::High);
        }
        if osc_sel {
            transfer.drive(Line::OscSelect, Level::High);
        }
        if reset {
            transfer.drive(Line::Reset, Level::High);
        }
        assert(transfer@ =~= init_ops(blank, osc_sel, reset));
        Some(Setup { num_chars, blank, osc_sel, reset, transfer, failed: false })
    }

    /// The line operation to carry out next, if any is left.
    pub fn next_op(&self) -> (r: Option<LineOp>)
        ensures
            r == if self@.pending.len() > 0 {
                Some(self@.pending[0])
            } else {
                None::<LineOp>
            },
    {
        self.transfer.next_op()
    }

    /// Takes the outcome of the operation that [`Setup::next_op`] gave. A
    /// failure ends the construction with the error of the line that failed.
    pub fn complete<PinErr>(&mut self, outcome: Result<(), PinErr>) -> (r: Result<
        (),
        Hcms29xxError<PinErr>,
    >)
        requires
            old(self)@.pending.len() > 0,
        ensures
            final(self)@ == old(self)@.acknowledged(outcome is Ok),
            match outcome {
                Ok(()) => r is Ok,
                Err(cause) => r == Err::<(), Hcms29xxError<PinErr>>(
                    Hcms29xxError::line_fault(old(self)@.pending[0].line, cause),
                ),
            },
    {
        let failed = outcome.is_err();
        let r = self.transfer.complete(outcome);
        if failed {
            self.failed = true;
        }
        r
    }
}

/// What a display instance holds.
pub struct DisplayState {
    /// The number of characters of the display.
    pub num_chars: nat,
    /// Whether the blank line is connected.
    pub blank: bool,
    /// Whether the oscillator select line is connected.
    pub osc_sel: bool,
    /// Whether the reset line is connected.
    pub reset: bool,
    pub control_word_0: Word0Fields,
    pub control_word_1: Word1Fields,
    /// The data-out mode that the devices are in: that of the control word 1
    /// they latched last.
    pub data_out_mode: DataOutMode,
    /// The first code of the font.
    pub font_ascii_start_index: u8,
    /// The line operations of the transfer in flight that are still to be
    /// carried out.
    pub pending: Seq<LineOp>,
    /// Whether the transfer in flight ends with control word 1.
    pub latches_word_1: bool,
}

impl DisplayState {
    /// What holds of every instance.
    pub open spec fn wf(self) -> bool {
        &&& self.num_chars >= MIN_CHARS
        &&& self.font_ascii_start_index == ascii_start()
        &&& self.pending.len() == 0 ==> !self.latches_word_1
    }

    /// Whether no transfer is in flight.
    pub open spec fn idle(self) -> bool {
        self.pending.len() == 0
    }

    /// The state of a display fresh from its construction.
    pub open spec fn initial(num_chars: nat, blank: bool, osc_sel: bool, reset: bool) -> Self {
        DisplayState {
            num_chars,
            blank,
            osc_sel,
            reset,
            control_word_0: Word0Fields {
                sleep_mode: SleepMode::Normal,
                peak_current: PeakCurrent::Max12_8Ma,
                brightness: 12,
            },
            control_word_1: Word1Fields {
                ext_osc_prescaler: ExtOscPrescaler::Direct,
                data_out_mode: DataOutMode::Serial,
            },
            data_out_mode: DataOutMode::Serial,
            font_ascii_start_index: ascii_start(),
            pending: Seq::empty(),
            latches_word_1: false,
        }
    }

    /// How often a control word is shifted in so that every device gets it:
    /// once for each device of the chain in serial mode, once in all in
    /// simultaneous mode.
    pub open spec fn fan_out(self) -> nat {
        match self.data_out_mode {
            DataOutMode::Serial => self.num_chars / DEVICE_CHARS as nat,
            DataOutMode::Simultaneous => 1,
        }
    }

    /// The transfer that brings `word` to every device.
    pub open spec fn word_push(self, word: u8) -> Seq<LineOp> {
        transfer_ops(Register::Control, Seq::new(self.fan_out(), |i: int| word))
    }

    /// The transfer that blanks every pixel column.
    pub open spec fn clear_ops(self) -> Seq<LineOp> {
        transfer_ops(Register::DotData, Seq::new(self.num_chars * CHAR_WIDTH as nat, |i: int| 0u8))
    }

    /// The state with `ops` in flight.
    pub open spec fn sending(self, ops: Seq<LineOp>, latches_word_1: bool) -> Self {
        DisplayState { pending: ops, latches_word_1, ..self }
    }

    /// After `clear`.
    pub open spec fn clear(self) -> Self {
        self.sending(self.clear_ops(), false)
    }

    /// After `begin`: the display is cleared, then control word 0 and
    /// control word 1 are pushed, each as often as the data-out mode in force
    /// asks for.
    pub open spec fn begin(self) -> Self {
        self.sending(
            self.clear_ops() + self.word_push(self.control_word_0.encode()) + self.word_push(
                self.control_word_1.encode(),
            ),
            true,
        )
    }

    /// After `print_cols`: the column bytes go out as they are.
    pub open spec fn print_cols(self, cols: Seq<u8>) -> Self {
        self.sending(transfer_ops(Register::DotData, cols), false)
    }

    /// With the glyphs of all of `text` on their way to the display.
    pub open spec fn show(self, text: Seq<u8>) -> Self {
        self.sending(transfer_ops(Register::DotData, text_columns(text)), false)
    }

    /// After `print_ascii_bytes`: the characters up to the end of the
    /// display, the end of the text or the first byte without a glyph are
    /// rendered.
    pub open spec fn print_ascii_bytes(self, bytes: Seq<u8>) -> Self {
        self.show(bytes.take(glyph_run(bytes, self.num_chars) as int))
    }

    /// With control word 0 changed to `fields` and on its way to the devices.
    pub open spec fn with_word_0(self, fields: Word0Fields) -> Self {
        DisplayState {
            control_word_0: fields,
            pending: self.word_push(fields.encode()),
            latches_word_1: false,
            ..self
        }
    }

    /// With control word 1 changed to `fields` and on its way to the devices.
    pub open spec fn with_word_1(self, fields: Word1Fields) -> Self {
        DisplayState {
            control_word_1: fields,
            pending: self.word_push(fields.encode()),
            latches_word_1: true,
            ..self
        }
    }

    /// After `set_brightness`: only the low four bits of the level count.
    pub open spec fn set_brightness(self, brightness: u8) -> Self {
        self.with_word_0(Word0Fields { brightness: brightness & 0b0000_1111, ..self.control_word_0 })
    }

    /// After `set_peak_current`.
    pub open spec fn set_peak_current(self, current: PeakCurrent) -> Self {
        self.with_word_0(Word0Fields { peak_current: current, ..self.control_word_0 })
    }

    /// After `display_sleep` or `display_wake`.
    pub open spec fn set_sleep_mode(self, mode: SleepMode) -> Self {
        self.with_word_0(Word0Fields { sleep_mode: mode, ..self.control_word_0 })
    }

    /// After `set_ext_osc_prescale_direct` or `set_ext_osc_prescale_div8`.
    pub open spec fn set_prescaler(self, prescaler: ExtOscPrescaler) -> Self {
        self.with_word_1(Word1Fields { ext_osc_prescaler: prescaler, ..self.control_word_1 })
    }

    /// After `set_serial_data_out` or `set_simultaneous_data_out`.
    pub open spec fn set_data_out(self, mode: DataOutMode) -> Self {
        self.with_word_1(Word1Fields { data_out_mode: mode, ..self.control_word_1 })
    }

    /// The state after the operation at the head of `pending` was answered.
    /// A failure drops the rest of the transfer. The success of the last
    /// operation of a transfer that ends with control word 1 makes the
    /// data-out mode of that word the one in force. With no operation pending
    /// there is nothing to answer.
    pub open spec fn acknowledged(self, ok: bool) -> Self {
        if self.pending.len() == 0 {
            self
        } else if !ok {
            DisplayState { pending: Seq::empty(), latches_word_1: false, ..self }
        } else if self.pending.len() == 1 {
            DisplayState {
                pending: Seq::empty(),
                latches_word_1: false,
                data_out_mode: if self.latches_word_1 {
                    self.control_word_1.data_out_mode
                } else {
                    self.data_out_mode
                },
                ..self
            }
        } else {
            DisplayState { pending: self.pending.drop_first(), ..self }
        }
    }
}

/// A display of 5x7 dot-matrix characters, four to a device, the devices
/// chained. A request queues the line operations of its transfer; the caller
/// carries them out one by one, taking each from [`Hcms29xx::next_op`] and
/// answering it with [`Hcms29xx::complete`].
pub struct Hcms29xx {
    num_chars: usize,
    blank: bool,
    osc_sel: bool,
    reset: bool,
    control_word_0: ControlWord0,
    control_word_1: ControlWord1,
    data_out_mode: DataOutMode,
    font_ascii_start_index: u8,
    transfer: Transfer,
    latches_word_1: bool,
}

impl View for Hcms29xx {
    type V = DisplayState;

    closed spec fn view(&self) -> DisplayState {
        DisplayState {
            num_chars: self.num_chars as nat,
            blank: self.blank,
            osc_sel: self.osc_sel,
            reset: self.reset,
            control_word_0: self.control_word_0@,
            control_word_1: self.control_word_1@,
            data_out_mode: self.data_out_mode,
            font_ascii_start_index: self.font_ascii_start_index,
            pending: self.transfer@,
            latches_word_1: self.latches_word_1,
        }
    }
}

impl Hcms29xx {
    /// The instance that a finished construction yields: `None` if a line
    /// operation failed or one is still to be carried out.
    pub fn new(setup: Setup) -> (r: Option<Hcms29xx>)
        ensures
            match r {
                Some(display) => setup@.finished() && setup@.num_chars >= MIN_CHARS && display@
                    == DisplayState::initial(
                    setup@.num_chars,
                    setup@.blank,
                    setup@.osc_sel,
                    setup@.reset,
                ) && display@.wf(),
                None => !setup@.finished() || setup@.num_chars < MIN_CHARS,
            },
    {
        if setup.failed || !setup.transfer.is_idle() || setup.num_chars < MIN_CHARS {
            return None;
        }
        Some(
            Hcms29xx {
                num_chars: setup.num_chars,
                blank: setup.blank,
                osc_sel: setup.osc_sel,
                reset: setup.reset,
                control_word_0: ControlWord0::default(),
                control_word_1: ControlWord1::default(),
                data_out_mode: DataOutMode::Serial,
                font_ascii_start_index: font_ascii_start_index(),
                transfer: Transfer::new(),
                latches_word_1: false,
            },
        )
    }

    /// The number of characters of the display.
    pub fn num_chars(&self) -> (r: usize)
        ensures
            r == self@.num_chars,
    {
        self.num_chars
    }

    /// Control word 0 as it was last set.
    pub fn control_word_0(&self) -> (r: ControlWord0)
        ensures
            r@ == self@.control_word_0,
    {
        self.control_word_0
    }

    /// Control word 1 as it was last set.
    pub fn control_word_1(&self) -> (r: ControlWord1)
        ensures
            r@ == self@.control_word_1,
    {
        self.control_word_1
    }

    /// The data-out mode in force.
    pub fn data_out_mode(&self) -> (r: DataOutMode)
        ensures
            r == self@.data_out_mode,
    {
        self.data_out_mode
    }

    /// The first code of the font.
    pub fn font_ascii_start_index(&self) -> (r: u8)
        ensures
            r == self@.font_ascii_start_index,
    {
        self.font_ascii_start_index
    }

    /// Whether no transfer is in flight.
    pub fn is_idle(&self) -> (r: bool)
        ensures
            r == self@.idle(),
    {
        self.transfer.is_idle()
    }

    /// The line operation to carry out next, if a transfer is in flight.
    pub fn next_op(&self) -> (r: Option<LineOp>)
        ensures
            r == if self@.pending.len() > 0 {
                Some(self@.pending[0])
            } else {
                None::<LineOp>
            },
    {
        self.transfer.next_op()
    }

    /// Takes the outcome of the operation that [`Hcms29xx::next_op`] gave. A
    /// failure ends the transfer with the error of the line that failed; the
    /// line operations that were still to come are not attempted.
    pub fn complete<PinErr>(&mut self, outcome: Result<(), PinErr>) -> (r: Result<
        (),
        Hcms29xxError<PinErr>,
    >)
        requires
            old(self)@.pending.len() > 0,
        ensures
            final(self)@ == old(self)@.acknowledged(outcome is Ok),
            match outcome {
                Ok(()) => r is Ok,
                Err(cause) => r == Err::<(), Hcms29xxError<PinErr>>(
                    Hcms29xxError::line_fault(old(self)@.pending[0].line, cause),
                ),
            },
    {
        let r = self.transfer.complete(outcome);
        if self.transfer.is_idle() {
            assert(self.transfer@ =~= Seq::<LineOp>::empty());
            if r.is_ok() && self.latches_word_1 {
                // update local state once the change is sent to the device
                self.data_out_mode = self.control_word_1.data_out_mode();
            }
            self.latches_word_1 = false;
        }
        r
    }
}

impl Hcms29xx {
    /// Queues the transfer that brings `control_word` to every device of the
    /// chain: in serial mode the word is shifted in once for each device, a
    /// quarter of the number of characters, in simultaneous mode once in all.
    pub fn update_control_word(&self, transfer: &mut Transfer, control_word: u8)
        ensures
            final(transfer)@ == old(transfer)@ + self@.word_push(control_word),
            self@.data_out_mode == DataOutMode::Serial ==> final(transfer)@ == old(transfer)@ + (
            enter_ops(Register::Control) + bytes_ops(
                Seq::new(self@.num_chars / 4, |i: int| control_word),
            ) + end_ops()),
            self@.data_out_mode == DataOutMode::Simultaneous ==> final(transfer)@ == old(transfer)@ + (enter_ops(Register::Control) + bytes_ops(seq![control_word]) + end_ops()),
    {
        let times_to_send: usize = match self.data_out_mode {
            DataOutMode::Serial => self.num_chars / DEVICE_CHARS,
            DataOutMode::Simultaneous => 1,
        };
        transfer.set_control_data();
        transfer.send_repeated(control_word, times_to_send);
        transfer.end_transfer();
        assert(transfer@ =~= old(transfer)@ + self@.word_push(control_word));
        assert(Seq::new(1, |i: int| control_word) =~= seq![control_word]);
    }

    /// Queues the transfer that blanks every pixel column.
    fn queue_clear(&self, transfer: &mut Transfer)
        ensures
            final(transfer)@ == old(transfer)@ + self@.clear_ops(),
    {
        transfer.set_dot_data();
        let ghost entered = transfer@;
        let mut i: usize = 0;
        assert(transfer@ =~= entered + bytes_ops(Seq::new(0, |k: int| 0u8)));
        while i < self.num_chars
            invariant
                i <= self.num_chars,
                transfer@ == entered + bytes_ops(
                    Seq::new(i as nat * CHAR_WIDTH as nat, |k: int| 0u8),
                ),
            decreases self.num_chars - i,
        {
            transfer.send_repeated(0x00, CHAR_WIDTH);
            proof {
                let before = Seq::new(i as nat * CHAR_WIDTH as nat, |k: int| 0u8);
                let cell = Seq::new(CHAR_WIDTH as nat, |k: int| 0u8);
                let after = Seq::new((i + 1) as nat * CHAR_WIDTH as nat, |k: int| 0u8);
                lemma_bytes_ops_concat(before, cell);
                assert(before + cell =~= after);
                assert(transfer@ =~= entered + bytes_ops(after));
            }
            i = i + 1;
        }
        transfer.end_transfer();
        assert(transfer@ =~= old(transfer)@ + self@.clear_ops());
    }

    /// Starts a transfer of `transfer`, which begins at an empty queue.
    fn start(&mut self, transfer: Transfer, latches_word_1: bool)
        ensures
            final(self)@ == old(self)@.sending(transfer@, latches_word_1),
    {
        self.transfer = transfer;
        self.latches_word_1 = latches_word_1;
    }

    /// Brings the display to a known state: clears it, then pushes control
    /// word 0 and control word 1.
    pub fn begin(&mut self)
        requires
            old(self)@.wf(),
            old(self)@.idle(),
        ensures
            final(self)@ == old(self)@.begin(),
    {
        let mut transfer = Transfer::new();
        self.queue_clear(&mut transfer);
        self.update_control_word(&mut transfer, self.control_word_0.bits());
        self.update_control_word(&mut transfer, self.control_word_1.bits());
        assert(transfer@ =~= self@.begin().pending);
        self.start(transfer, true);
    }

    /// Blanks every pixel of the display.
    pub fn clear(&mut self)
        requires
            old(self)@.wf(),
            old(self)@.idle(),
        ensures
            final(self)@ == old(self)@.clear(),
    {
        let mut transfer = Transfer::new();
        self.queue_clear(&mut transfer);
        assert(transfer@ =~= self@.clear_ops());
        self.start(transfer, false);
    }

    /// Renders text with the built-in font, one character to a cell from the
    /// left. Rendering stops at the end of the display or of the text, and
    /// before the first byte that has no glyph: nothing is shifted in for
    /// that cell or the cells after it.
    pub fn print_ascii_bytes(&mut self, bytes: &[u8])
        requires
            old(self)@.wf(),
            old(self)@.idle(),
        ensures
            final(self)@ == old(self)@.print_ascii_bytes(bytes@),
    {
        let mut transfer = Transfer::new();
        transfer.set_dot_data();
        let ghost entered = transfer@;
        let mut i: usize = 0;
        let mut stopped: bool = false;
        assert(transfer@ =~= entered + bytes_ops(text_columns(bytes@.take(0))));
        while !stopped && i < self.num_chars && i < bytes.len()
            invariant
                i <= self.num_chars,
                i <= bytes.len(),
                self.font_ascii_start_index == ascii_start(),
                forall|j: int| 0 <= j < i ==> has_glyph(#[trigger] bytes@[j]),
                stopped ==> i < self.num_chars && i < bytes.len() && !has_glyph(bytes@[i as int]),
                transfer@ == entered + bytes_ops(text_columns(bytes@.take(i as int))),
            decreases (if stopped { 0int } else { 1int }), bytes.len() - i,
        {
            if bytes[i] < self.font_ascii_start_index {
                stopped = true;
            } else {
                match glyph(bytes[i]) {
                    Some(columns) => {
                        transfer.send_bytes(&columns);
                        proof {
                            let before = text_columns(bytes@.take(i as int));
                            lemma_bytes_ops_concat(before, glyph_columns(bytes@[i as int]));
                            assert(bytes@.take(i + 1).drop_last() =~= bytes@.take(i as int));
                            assert(transfer@ =~= entered + bytes_ops(
                                text_columns(bytes@.take(i + 1)),
                            ));
                        }
                        i = i + 1;
                    },
                    None => {
                        stopped = true;
                    },
                }
            }
        }
        transfer.end_transfer();
        proof {
            lemma_glyph_run_stops(bytes@, self.num_chars as nat, i as nat);
            assert(transfer@ =~= self@.print_ascii_bytes(bytes@).pending);
        }
        self.start(transfer, false);
    }

    /// Shifts raw column bytes in as they are, without the font.
    pub fn print_cols(&mut self, cols: &[u8])
        requires
            old(self)@.wf(),
            old(self)@.idle(),
        ensures
            final(self)@ == old(self)@.print_cols(cols@),
    {
        let mut transfer = Transfer::new();
        transfer.set_dot_data();
        transfer.send_bytes(cols);
        transfer.end_transfer();
        assert(transfer@ =~= transfer_ops(Register::DotData, cols@));
        self.start(transfer, false);
    }

    /// Prints cells that a formatter has filled: every character has a glyph
    /// and there is one for each cell of the display.
    fn print_cells(&mut self, cells: &Vec<u8>)
        requires
            old(self)@.wf(),
            old(self)@.idle(),
            crate::font5x7::printable(cells@),
            cells@.len() == old(self)@.num_chars,
        ensures
            final(self)@ == old(self)@.show(cells@),
    {
        proof {
            lemma_printable_in_full(cells@, self@.num_chars);
        }
        self.print_ascii_bytes(cells.as_slice());
    }

    /// Prints a signed integer right-justified, with a minus sign if it is
    /// negative. The cell before the digits is kept for the sign, so the
    /// magnitude may be at most `10^(N-1) - 1` on a display of `N` characters;
    /// beyond that the value is refused and nothing is sent.
    pub fn print_int<PinErr>(&mut self, value: i64) -> (r: Result<(), Hcms29xxError<PinErr>>)
        requires
            old(self)@.wf(),
            old(self)@.idle(),
        ensures
            match r {
                Ok(()) => fits_signed(value as int, old(self)@.num_chars) && final(self)@ == old(
                    self,
                )@.show(right_justified(signed_text(value as int), old(self)@.num_chars)),
                Err(e) => e == Hcms29xxError::<PinErr>::ValueTooLong && !fits_signed(
                    value as int,
                    old(self)@.num_chars,
                ) && final(self)@ == old(self)@,
            },
            r is Ok ==> parse_cells(
                right_justified(signed_text(value as int), old(self)@.num_chars),
            ) == value,
    {
        match format_int(value, self.num_chars) {
            Some(cells) => {
                proof {
                    lemma_signed_round_trip(value as int, self@.num_chars);
                    lemma_signed_cells_printable(value as int, self@.num_chars);
                }
                self.print_cells(&cells);
                Ok(())
            },
            None => Err(Hcms29xxError::ValueTooLong),
        }
    }

    /// Prints an unsigned integer right-justified. It may be at most
    /// `10^N - 1` on a display of `N` characters; beyond that the value is
    /// refused and nothing is sent.
    pub fn print_uint<PinErr>(&mut self, value: u64) -> (r: Result<(), Hcms29xxError<PinErr>>)
        requires
            old(self)@.wf(),
            old(self)@.idle(),
        ensures
            match r {
                Ok(()) => fits_unsigned(value as nat, old(self)@.num_chars) && final(self)@ == old(
                    self,
                )@.show(right_justified(decimal_digits(value as nat), old(self)@.num_chars)),
                Err(e) => e == Hcms29xxError::<PinErr>::ValueTooLong && !fits_unsigned(
                    value as nat,
                    old(self)@.num_chars,
                ) && final(self)@ == old(self)@,
            },
            r is Ok ==> parse_cells(
                right_justified(decimal_digits(value as nat), old(self)@.num_chars),
            ) == value,
    {
        match format_uint(value, self.num_chars) {
            Some(cells) => {
                proof {
                    lemma_unsigned_round_trip(value as nat, self@.num_chars);
                    lemma_unsigned_cells_printable(value as nat, self@.num_chars);
                }
                self.print_cells(&cells);
                Ok(())
            },
            None => Err(Hcms29xxError::ValueTooLong),
        }
    }

    /// Prints a signed 32-bit integer as [`Hcms29xx::print_int`] does, on
    /// 32-bit arithmetic whatever the width of the display.
    pub fn print_i32<PinErr>(&mut self, value: i32) -> (r: Result<(), Hcms29xxError<PinErr>>)
        requires
            old(self)@.wf(),
            old(self)@.idle(),
        ensures
            match r {
                Ok(()) => fits_signed(value as int, old(self)@.num_chars) && final(self)@ == old(
                    self,
                )@.show(right_justified(signed_text(value as int), old(self)@.num_chars)),
                Err(e) => e == Hcms29xxError::<PinErr>::ValueTooLong && !fits_signed(
                    value as int,
                    old(self)@.num_chars,
                ) && final(self)@ == old(self)@,
            },
            r is Ok ==> parse_cells(
                right_justified(signed_text(value as int), old(self)@.num_chars),
            ) == value,
    {
        match format_i32(value, self.num_chars) {
            Some(cells) => {
                proof {
                    lemma_signed_round_trip(value as int, self@.num_chars);
                    lemma_signed_cells_printable(value as int, self@.num_chars);
                }
                self.print_cells(&cells);
                Ok(())
            },
            None => Err(Hcms29xxError::ValueTooLong),
        }
    }

    /// Prints an unsigned 32-bit integer as [`Hcms29xx::print_uint`] does, on
    /// 32-bit arithmetic whatever the width of the display.
    pub fn print_u32<PinErr>(&mut self, value: u32) -> (r: Result<(), Hcms29xxError<PinErr>>)
        requires
            old(self)@.wf(),
            old(self)@.idle(),
        ensures
            match r {
                Ok(()) => fits_unsigned(value as nat, old(self)@.num_chars) && final(self)@ == old(
                    self,
                )@.show(right_justified(decimal_digits(value as nat), old(self)@.num_chars)),
                Err(e) => e == Hcms29xxError::<PinErr>::ValueTooLong && !fits_unsigned(
                    value as nat,
                    old(self)@.num_chars,
                ) && final(self)@ == old(self)@,
            },
            r is Ok ==> parse_cells(
                right_justified(decimal_digits(value as nat), old(self)@.num_chars),
            ) == value,
    {
        match format_u32(value, self.num_chars) {
            Some(cells) => {
                proof {
                    lemma_unsigned_round_trip(value as nat, self@.num_chars);
                    lemma_unsigned_cells_printable(value as nat, self@.num_chars);
                }
                self.print_cells(&cells);
                Ok(())
            },
            None => Err(Hcms29xxError::ValueTooLong),
        }
    }

    /// Prints a floating-point reading right-justified with `precision`
    /// fractional digits. `NaN`, `+Inf` and `-Inf` are printed as such
    /// whatever the precision, and always fit. A finite value whose sign,
    /// whole part, point and fraction are longer than the display, or one
    /// that is too large for a reading, is refused, and nothing is sent.
    pub fn print_float<PinErr>(&mut self, value: Decimal, precision: u8) -> (r: Result<
        (),
        Hcms29xxError<PinErr>,
    >)
        requires
            old(self)@.wf(),
            old(self)@.idle(),
        ensures
            match r {
                Ok(()) => decimal_fits(value, precision as nat, old(self)@.num_chars) && final(self)@ == old(self)@.show(
                    right_justified(decimal_text(value, precision as nat), old(self)@.num_chars),
                ),
                Err(e) => e == Hcms29xxError::<PinErr>::ValueTooLong && !decimal_fits(
                    value,
                    precision as nat,
                    old(self)@.num_chars,
                ) && final(self)@ == old(self)@,
            },
            value is NotANumber ==> r is Ok && final(self)@ == old(self)@.show(
                right_justified(nan_text(), old(self)@.num_chars),
            ),
            value matches Decimal::Infinite { negative } ==> r is Ok && final(self)@ == old(
                self,
            )@.show(right_justified(infinity_text(negative), old(self)@.num_chars)),
    {
        match format_decimal(value, precision, self.num_chars) {
            Some(cells) => {
                proof {
                    lemma_decimal_text_printable(value, precision as nat);
                    lemma_right_justified_printable(
                        decimal_text(value, precision as nat),
                        self@.num_chars,
                    );
                }
                self.print_cells(&cells);
                Ok(())
            },
            None => Err(Hcms29xxError::ValueTooLong),
        }
    }

    /// Prints a value that was converted from another type: as a signed
    /// integer where the conversion to one gave a value, else as an unsigned
    /// integer where the conversion to one gave a value. A value that
    /// converts to neither is refused, and nothing is sent.
    pub fn print_converted<PinErr>(&mut self, signed: Option<i64>, unsigned: Option<u64>) -> (r:
        Result<(), Hcms29xxError<PinErr>>)
        requires
            old(self)@.wf(),
            old(self)@.idle(),
        ensures
            match (signed, unsigned) {
                (Some(value), _) => match r {
                    Ok(()) => fits_signed(value as int, old(self)@.num_chars) && final(self)@
                        == old(self)@.show(
                        right_justified(signed_text(value as int), old(self)@.num_chars),
                    ),
                    Err(e) => e == Hcms29xxError::<PinErr>::ValueTooLong && !fits_signed(
                        value as int,
                        old(self)@.num_chars,
                    ) && final(self)@ == old(self)@,
                },
                (None, Some(value)) => match r {
                    Ok(()) => fits_unsigned(value as nat, old(self)@.num_chars) && final(self)@
                        == old(self)@.show(
                        right_justified(decimal_digits(value as nat), old(self)@.num_chars),
                    ),
                    Err(e) => e == Hcms29xxError::<PinErr>::ValueTooLong && !fits_unsigned(
                        value as nat,
                        old(self)@.num_chars,
                    ) && final(self)@ == old(self)@,
                },
                (None, None) => r == Err::<(), Hcms29xxError<PinErr>>(
                    Hcms29xxError::ValueTooLong,
                ) && final(self)@ == old(self)@,
            },
    {
        match signed {
            Some(value) => self.print_int(value),
            None => match unsigned {
                Some(value) => self.print_uint(value),
                None => Err(Hcms29xxError::ValueTooLong),
            },
        }
    }
}

impl DisplayState {
    /// After a request that drives one of the optional lines, which must be
    /// connected.
    pub open spec fn line_ops(self, ops: Seq<LineOp>) -> Self {
        self.sending(ops, false)
    }
}

impl Hcms29xx {
    /// Starts a transfer of the given operations on one optional line, or
    /// refuses if the line is not connected.
    fn drive_optional<PinErr>(
        &mut self,
        connected: bool,
        line: Line,
        first: Level,
        second: Option<Level>,
    ) -> (r: Result<(), Hcms29xxError<PinErr>>)
        requires
            old(self)@.idle(),
        ensures
            match r {
                Ok(()) => connected && final(self)@ == old(self)@.line_ops(
                    match second {
                        Some(level) => seq![LineOp { line, level: first }, LineOp { line, level }],
                        None => seq![LineOp { line, level: first }],
                    },
                ),
                Err(e) => !connected && e == Hcms29xxError::<PinErr>::PinNotConfigured
                    && final(self)@ == old(self)@,
            },
    {
        if !connected {
            return Err(Hcms29xxError::PinNotConfigured);
        }
        let mut transfer = Transfer::new();
        transfer.drive(line, first);
        match second {
            Some(level) => {
                transfer.drive(line, level);
            },
            None => {},
        }
        assert(transfer@ =~= match second {
            Some(level) => seq![LineOp { line, level: first }, LineOp { line, level }],
            None => seq![LineOp { line, level: first }],
        });
        self.start(transfer, false);
        Ok(())
    }

    /// Turns the display off by driving the blank line high. Refused with
    /// `PinNotConfigured`, and nothing driven, if that line is not connected.
    pub fn display_blank<PinErr>(&mut self) -> (r: Result<(), Hcms29xxError<PinErr>>)
        requires
            old(self)@.wf(),
            old(self)@.idle(),
        ensures
            match r {
                Ok(()) => old(self)@.blank && final(self)@ == old(self)@.line_ops(
                    seq![LineOp { line: Line::Blank, level: Level::High }],
                ),
                Err(e) => !old(self)@.blank && e == Hcms29xxError::<PinErr>::PinNotConfigured
                    && final(self)@ == old(self)@,
            },
    {
        self.drive_optional(self.blank, Line::Blank, Level::High, None)
    }

    /// Turns the display on by driving the blank line low. Refused with
    /// `PinNotConfigured`, and nothing driven, if that line is not connected.
    pub fn display_unblank<PinErr>(&mut self) -> (r: Result<(), Hcms29xxError<PinErr>>)
        requires
            old(self)@.wf(),
            old(self)@.idle(),
        ensures
            match r {
                Ok(()) => old(self)@.blank && final(self)@ == old(self)@.line_ops(
                    seq![LineOp { line: Line::Blank, level: Level::Low }],
                ),
                Err(e) => !old(self)@.blank && e == Hcms29xxError::<PinErr>::PinNotConfigured
                    && final(self)@ == old(self)@,
            },
    {
        self.drive_optional(self.blank, Line::Blank, Level::Low, None)
    }

    /// Resets the devices by pulsing the reset line low, then high. Refused
    /// with `PinNotConfigured`, and nothing driven, if that line is not
    /// connected.
    pub fn reset<PinErr>(&mut self) -> (r: Result<(), Hcms29xxError<PinErr>>)
        requires
            old(self)@.wf(),
            old(self)@.idle(),
        ensures
            match r {
                Ok(()) => old(self)@.reset && final(self)@ == old(self)@.line_ops(
                    seq![
                        LineOp { line: Line::Reset, level: Level::Low },
                        LineOp { line: Line::Reset, level: Level::High },
                    ],
                ),
                Err(e) => !old(self)@.reset && e == Hcms29xxError::<PinErr>::PinNotConfigured
                    && final(self)@ == old(self)@,
            },
    {
        self.drive_optional(self.reset, Line::Reset, Level::Low, Some(Level::High))
    }

    /// Selects the external oscillator by driving the oscillator select line
    /// low. Refused with `PinNotConfigured`, and nothing driven, if that line
    /// is not connected.
    pub fn set_ext_osc<PinErr>(&mut self) -> (r: Result<(), Hcms29xxError<PinErr>>)
        requires
            old(self)@.wf(),
            old(self)@.idle(),
        ensures
            match r {
                Ok(()) => old(self)@.osc_sel && final(self)@ == old(self)@.line_ops(
                    seq![LineOp { line: Line::OscSelect, level: Level::Low }],
                ),
                Err(e) => !old(self)@.osc_sel && e == Hcms29xxError::<PinErr>::PinNotConfigured
                    && final(self)@ == old(self)@,
            },
    {
        self.drive_optional(self.osc_sel, Line::OscSelect, Level::Low, None)
    }

    /// Selects the internal oscillator by driving the oscillator select line
    /// high. Refused with `PinNotConfigured`, and nothing driven, if that
    /// line is not connected.
    pub fn set_int_osc<PinErr>(&mut self) -> (r: Result<(), Hcms29xxError<PinErr>>)
        requires
            old(self)@.wf(),
            old(self)@.idle(),
        ensures
            match r {
                Ok(()) => old(self)@.osc_sel && final(self)@ == old(self)@.line_ops(
                    seq![LineOp { line: Line::OscSelect, level: Level::High }],
                ),
                Err(e) => !old(self)@.osc_sel && e == Hcms29xxError::<PinErr>::PinNotConfigured
                    && final(self)@ == old(self)@,
            },
    {
        self.drive_optional(self.osc_sel, Line::OscSelect, Level::High, None)
    }

    /// Starts the push of control word 0 as it now stands.
    fn push_word_0(&mut self)
        requires
            old(self)@.idle(),
        ensures
            final(self)@ == old(self)@.with_word_0(old(self)@.control_word_0),
    {
        let mut transfer = Transfer::new();
        self.update_control_word(&mut transfer, self.control_word_0.bits());
        assert(transfer@ =~= self@.word_push(self@.control_word_0.encode()));
        self.start(transfer, false);
    }

    /// Starts the push of control word 1 as it now stands.
    fn push_word_1(&mut self)
        requires
            old(self)@.idle(),
        ensures
            final(self)@ == old(self)@.with_word_1(old(self)@.control_word_1),
    {
        let mut transfer = Transfer::new();
        self.update_control_word(&mut transfer, self.control_word_1.bits());
        assert(transfer@ =~= self@.word_push(self@.control_word_1.encode()));
        self.start(transfer, true);
    }

    /// Puts the display to sleep.
    pub fn display_sleep(&mut self)
        requires
            old(self)@.wf(),
            old(self)@.idle(),
        ensures
            final(self)@ == old(self)@.set_sleep_mode(SleepMode::Sleep),
    {
        self.control_word_0.set_wake_bit(SleepMode::Sleep);
        self.push_word_0();
    }

    /// Wakes the display.
    pub fn display_wake(&mut self)
        requires
            old(self)@.wf(),
            old(self)@.idle(),
        ensures
            final(self)@ == old(self)@.set_sleep_mode(SleepMode::Normal),
    {
        self.control_word_0.set_wake_bit(SleepMode::Normal);
        self.push_word_0();
    }

    /// Sets the brightness to the low four bits of `brightness`: a level
    /// above 15 is cut down to them, not refused.
    pub fn set_brightness(&mut self, brightness: u8)
        requires
            old(self)@.wf(),
            old(self)@.idle(),
        ensures
            final(self)@ == old(self)@.set_brightness(brightness),
            final(self)@.control_word_0.brightness == brightness & 0b0000_1111,
            final(self)@.control_word_0.encode() == (old(self)@.control_word_0.encode()
                & 0b1111_0000) | (brightness & 0b0000_1111),
            final(self)@.control_word_0.encode() & 0b0000_1111 == brightness & 0b0000_1111,
            final(self)@.pending == old(self)@.word_push(final(self)@.control_word_0.encode()),
    {
        proof {
            lemma_brightness_in_word(self@.control_word_0, brightness);
        }
        self.control_word_0.set_brightness_bits(brightness);
        self.push_word_0();
    }

    /// Sets the peak pixel current.
    pub fn set_peak_current(&mut self, current: PeakCurrent)
        requires
            old(self)@.wf(),
            old(self)@.idle(),
        ensures
            final(self)@ == old(self)@.set_peak_current(current),
            final(self)@.control_word_0.encode() == (old(self)@.control_word_0.encode()
                & !0b0011_0000u8) | current.code(),
            final(self)@.pending == old(self)@.word_push(final(self)@.control_word_0.encode()),
    {
        proof {
            lemma_peak_current_in_word(self@.control_word_0, current);
        }
        self.control_word_0.set_peak_current_bits(current);
        self.push_word_0();
    }

    /// Has an external oscillator used as it comes.
    pub fn set_ext_osc_prescale_direct(&mut self)
        requires
            old(self)@.wf(),
            old(self)@.idle(),
        ensures
            final(self)@ == old(self)@.set_prescaler(ExtOscPrescaler::Direct),
    {
        self.control_word_1.set_ext_osc_prescaler_bit(ExtOscPrescaler::Direct);
        self.push_word_1();
    }

    /// Has an external oscillator divided by eight.
    pub fn set_ext_osc_prescale_div8(&mut self)
        requires
            old(self)@.wf(),
            old(self)@.idle(),
        ensures
            final(self)@ == old(self)@.set_prescaler(ExtOscPrescaler::Div8),
    {
        self.control_word_1.set_ext_osc_prescaler_bit(ExtOscPrescaler::Div8);
        self.push_word_1();
    }

    /// Switches the chain to serial data out. The control word goes out as
    /// often as the mode still in force asks for; the new mode is in force
    /// once the transfer has ended well.
    pub fn set_serial_data_out(&mut self)
        requires
            old(self)@.wf(),
            old(self)@.idle(),
        ensures
            final(self)@ == old(self)@.set_data_out(DataOutMode::Serial),
    {
        self.control_word_1.set_data_out_mode_bit(DataOutMode::Serial);
        self.push_word_1();
    }

    /// Switches the chain to simultaneous data out. The control word goes
    /// out as often as the mode still in force asks for; the new mode is in
    /// force once the transfer has ended well.
    pub fn set_simultaneous_data_out(&mut self)
        requires
            old(self)@.wf(),
            old(self)@.idle(),
        ensures
            final(self)@ == old(self)@.set_data_out(DataOutMode::Simultaneous),
    {
        self.control_word_1.set_data_out_mode_bit(DataOutMode::Simultaneous);
        self.push_word_1();
    }
}

/// The cells of a signed value that fits all have glyphs.
pub proof fn lemma_signed_cells_printable(value: int, width: nat)
    requires
        fits_signed(value, width),
    ensures
        crate::font5x7::printable(right_justified(signed_text(value), width)),
        right_justified(signed_text(value), width).len() == width,
{
    crate::format::lemma_signed_text_fits(value, width);
    if value < 0 {
        lemma_integer_text_printable(true, (-value) as nat);
    } else {
        lemma_integer_text_printable(false, value as nat);
    }
    lemma_right_justified_printable(signed_text(value), width);
}

/// The cells of an unsigned value that fits all have glyphs.
pub proof fn lemma_unsigned_cells_printable(value: nat, width: nat)
    requires
        fits_unsigned(value, width),
    ensures
        crate::font5x7::printable(right_justified(decimal_digits(value), width)),
        right_justified(decimal_digits(value), width).len() == width,
{
    crate::format::lemma_unsigned_text_fits(value, width);
    lemma_integer_text_printable(false, value);
    lemma_right_justified_printable(decimal_digits(value), width);
}

/// Whatever brightness is asked for, the level that control word 0 then
/// holds is its low four bits, and the other fields of the word are as they
/// were.
pub proof fn lemma_brightness_is_masked(state: DisplayState, brightness: u8)
    ensures
        state.set_brightness(brightness).control_word_0.brightness == brightness & 0b0000_1111,
        state.set_brightness(brightness).control_word_0.brightness <= 15,
        state.set_brightness(brightness).control_word_0.sleep_mode
            == state.control_word_0.sleep_mode,
        state.set_brightness(brightness).control_word_0.peak_current
            == state.control_word_0.peak_current,
        state.set_brightness(brightness).control_word_1 == state.control_word_1,
{
    assert(brightness & 0b0000_1111 <= 15) by (bit_vector);
}

/// A byte below the first code of the font ends the rendering of a text. If
/// the bytes before position `i` all have glyphs and the byte at `i` is
/// below the first code, printing the text is printing its first `i`
/// characters: their `5 * i` columns are shifted in and nothing for the
/// cells from `i` on.
pub proof fn lemma_print_stops_early(state: DisplayState, bytes: Seq<u8>, i: nat)
    requires
        state.wf(),
        i < state.num_chars,
        i < bytes.len(),
        bytes[i as int] < state.font_ascii_start_index,
        forall|j: int| 0 <= j < i ==> has_glyph(#[trigger] bytes[j]),
    ensures
        state.print_ascii_bytes(bytes) == state.show(bytes.take(i as int)),
        state.print_ascii_bytes(bytes).pending == enter_ops(Register::DotData) + bytes_ops(
            text_columns(bytes.take(i as int)),
        ) + end_ops(),
        text_columns(bytes.take(i as int)).len() == 5 * i,
        state.print_ascii_bytes(bytes).pending.len() == 3 + 24 * (5 * i) + 2,
{
    lemma_early_stop(bytes, state.num_chars, i);
    lemma_bytes_ops_len(text_columns(bytes.take(i as int)));
}

/// A request that changes control word 0 shifts the word in once for each
/// device of the chain in serial mode, and once in simultaneous mode; the
/// control words that the two displays then hold are the same.
pub proof fn lemma_word_0_fan_out(
    serial: DisplayState,
    simultaneous: DisplayState,
    fields: Word0Fields,
)
    requires
        serial.data_out_mode == DataOutMode::Serial,
        simultaneous.data_out_mode == DataOutMode::Simultaneous,
    ensures
        serial.with_word_0(fields).pending == transfer_ops(
            Register::Control,
            Seq::new(serial.num_chars / 4, |i: int| fields.encode()),
        ),
        simultaneous.with_word_0(fields).pending == transfer_ops(
            Register::Control,
            seq![fields.encode()],
        ),
        serial.with_word_0(fields).control_word_0 == simultaneous.with_word_0(
            fields,
        ).control_word_0,
        serial.with_word_0(fields).pending.len() == 3 + 24 * (serial.num_chars / 4) + 2,
        simultaneous.with_word_0(fields).pending.len() == 3 + 24 + 2,
{
    assert(Seq::new(1, |i: int| fields.encode()) =~= seq![fields.encode()]);
    lemma_bytes_ops_len(Seq::new(serial.num_chars / 4, |i: int| fields.encode()));
    lemma_bytes_ops_len(seq![fields.encode()]);
}

/// A request that changes control word 1 shifts the word in once for each
/// device of the chain in serial mode, and once in simultaneous mode; the
/// control words that the two displays then hold are the same.
pub proof fn lemma_word_1_fan_out(
    serial: DisplayState,
    simultaneous: DisplayState,
    fields: Word1Fields,
)
    requires
        serial.data_out_mode == DataOutMode::Serial,
        simultaneous.data_out_mode == DataOutMode::Simultaneous,
    ensures
        serial.with_word_1(fields).pending == transfer_ops(
            Register::Control,
            Seq::new(serial.num_chars / 4, |i: int| fields.encode()),
        ),
        simultaneous.with_word_1(fields).pending == transfer_ops(
            Register::Control,
            seq![fields.encode()],
        ),
        serial.with_word_1(fields).control_word_1 == simultaneous.with_word_1(
            fields,
        ).control_word_1,
        serial.with_word_1(fields).pending.len() == 3 + 24 * (serial.num_chars / 4) + 2,
        simultaneous.with_word_1(fields).pending.len() == 3 + 24 + 2,
{
    assert(Seq::new(1, |i: int| fields.encode()) =~= seq![fields.encode()]);
    lemma_bytes_ops_len(Seq::new(serial.num_chars / 4, |i: int| fields.encode()));
    lemma_bytes_ops_len(seq![fields.encode()]);
}

/// A line operation that fails during construction ends it: no operation is
/// left to attempt, the construction never finishes, and so it yields no
/// instance, whatever is answered afterwards.
pub proof fn lemma_failed_setup_is_final(setup: SetupState, later: Seq<bool>)
    requires
        setup.pending.len() > 0 || setup.failed,
    ensures
        setup.acknowledged(false).pending == Seq::<LineOp>::empty(),
        !setup.acknowledged(false).finished(),
        !answers(setup.acknowledged(false), later).finished(),
        answers(setup.acknowledged(false), later).pending == Seq::<LineOp>::empty(),
{
    lemma_nothing_left_to_answer(setup.acknowledged(false), later);
}

/// With no operation pending, answers change nothing.
pub proof fn lemma_nothing_left_to_answer(setup: SetupState, outcomes: Seq<bool>)
    requires
        setup.pending.len() == 0,
    ensures
        answers(setup, outcomes) == setup,
    decreases outcomes.len(),
{
    if outcomes.len() > 0 {
        lemma_nothing_left_to_answer(setup, outcomes.drop_first());
    }
}

/// The state of a construction after a run of answers.
pub open spec fn answers(setup: SetupState, outcomes: Seq<bool>) -> SetupState
    decreases outcomes.len(),
{
    if outcomes.len() == 0 {
        setup
    } else {
        answers(setup.acknowledged(outcomes[0]), outcomes.drop_first())
    }
}

/// A run of `count` answers of success.
pub open spec fn successes(count: nat) -> Seq<bool> {
    Seq::new(count, |i: int| true)
}

/// A construction in which nothing has failed finishes once every line
/// operation has been answered with success, and not before.
pub proof fn lemma_setup_finishes(setup: SetupState)
    requires
        !setup.failed,
    ensures
        answers(setup, successes(setup.pending.len())).finished(),
        forall|k: nat|
            k < setup.pending.len() ==> !(#[trigger] answers(setup, successes(k))).finished(),
    decreases setup.pending.len(),
{
    let n = setup.pending.len();
    if n > 0 {
        let next = setup.acknowledged(true);
        lemma_setup_finishes(next);
        assert(successes(n).drop_first() =~= successes((n - 1) as nat));
        assert forall|k: nat| k < n implies !(#[trigger] answers(
            setup,
            successes(k),
        )).finished() by {
            if k > 0 {
                assert(successes(k).drop_first() =~= successes((k - 1) as nat));
                assert(!answers(next, successes((k - 1) as nat)).finished());
            }
        }
    }
}

/// A construction in which the line operation at step `k` fails: the steps
/// before it were carried out in their order and answered with success, the
/// one that fails is the one at `k`, and with its failure nothing is left to
/// attempt and the construction is not finished, so no later line is driven
/// and there is no instance.
pub proof fn lemma_setup_fails_at_step(setup: SetupState, k: nat)
    requires
        !setup.failed,
        k < setup.pending.len(),
    ensures
        answers(setup, successes(k)).pending == setup.pending.skip(k as int),
        answers(setup, successes(k)).pending[0] == setup.pending[k as int],
        !answers(setup, successes(k)).failed,
        answers(setup, successes(k)).acknowledged(false).pending == Seq::<LineOp>::empty(),
        !answers(setup, successes(k)).acknowledged(false).finished(),
    decreases k,
{
    if k == 0 {
        assert(setup.pending.skip(0) =~= setup.pending);
    } else {
        let next = setup.acknowledged(true);
        assert(successes(k).drop_first() =~= successes((k - 1) as nat));
        lemma_setup_fails_at_step(next, (k - 1) as nat);
        assert(next.pending.skip(k - 1) =~= setup.pending.skip(k as int));
    }
}

} // verus!
