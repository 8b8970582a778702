//! The two 8-bit control words of the display and their field encodings.

use vstd::prelude::*;

verus! {

/// Whether the display is driven (`Normal`) or put to sleep.
#[derive(Debug, Clone, Copy, PartialEq, Eq, Structural)]
pub enum SleepMode {
    Sleep,
    Normal,
}

impl SleepMode {
    /// The wake bit that stands for this mode in control word 0.
    pub open spec fn code(self) -> u8 {
        match self {
            SleepMode::Sleep => 0b0000_0000,
            SleepMode::Normal => 0b0100_0000,
        }
    }
}

impl Default for SleepMode {
    fn default() -> (r: Self)
        ensures
            r == SleepMode::Normal,
    {
        SleepMode::Normal
    }
}

/// The four peak pixel currents the device can be set to.
#[derive(Debug, Clone, Copy, PartialEq, Eq, Structural)]
pub enum PeakCurrent {
    Max4_0Ma,
    Max6_4Ma,
    Max9_3Ma,
    Max12_8Ma,
}

impl PeakCurrent {
    /// The two-bit code of this level, in place within control word 0.
    pub open spec fn code(self) -> u8 {
        match self {
            PeakCurrent::Max4_0Ma => 0b0010_0000,
            PeakCurrent::Max6_4Ma => 0b0001_0000,
            PeakCurrent::Max9_3Ma => 0b0000_0000,
            PeakCurrent::Max12_8Ma => 0b0011_0000,
        }
    }

    /// The two-bit code of this level, in place within control word 0.
    pub fn bitmask(&self) -> (r: u8)
        ensures
            r == self.code(),
    {
        match self {
            PeakCurrent::Max4_0Ma => 0b0010_0000,
            PeakCurrent::Max6_4Ma => 0b0001_0000,
            PeakCurrent::Max9_3Ma => 0b0000_0000,
            PeakCurrent::Max12_8Ma => 0b0011_0000,
        }
    }
}

impl Default for PeakCurrent {
    /// The full peak current, which is what the device itself starts with.
    fn default() -> (r: Self)
        ensures
            r == PeakCurrent::Max12_8Ma,
    {
        PeakCurrent::Max12_8Ma
    }
}

/// How the devices of a chain pass control words on.
#[derive(Debug, Clone, Copy, PartialEq, Eq, Structural)]
pub enum DataOutMode {
    /// Each device hands what it shifts out to the next one.
    Serial,
    /// All devices take the same control word at once.
    Simultaneous,
}

impl DataOutMode {
    /// The data-out bit that stands for this mode in control word 1.
    pub open spec fn code(self) -> u8 {
        match self {
            DataOutMode::Serial => 0b0000_0000,
            DataOutMode::Simultaneous => 0b0000_0001,
        }
    }
}

impl Default for DataOutMode {
    fn default() -> (r: Self)
        ensures
            r == DataOutMode::Serial,
    {
        DataOutMode::Serial
    }
}

/// The divider applied to an external oscillator.
#[derive(Debug, Clone, Copy, PartialEq, Eq, Structural)]
pub enum ExtOscPrescaler {
    /// The clock is used as it comes.
    Direct,
    /// The clock is divided by eight.
    Div8,
}

impl ExtOscPrescaler {
    /// The prescaler bit that stands for this setting in control word 1.
    pub open spec fn code(self) -> u8 {
        match self {
            ExtOscPrescaler::Direct => 0b0000_0000,
            ExtOscPrescaler::Div8 => 0b0000_0010,
        }
    }
}

impl Default for ExtOscPrescaler {
    fn default() -> (r: Self)
        ensures
            r == ExtOscPrescaler::Direct,
    {
        ExtOscPrescaler::Direct
    }
}

/// What control word 0 says, field by field.
pub struct Word0Fields {
    pub sleep_mode: SleepMode,
    pub peak_current: PeakCurrent,
    /// Brightness level, `0..=15`.
    pub brightness: u8,
}

impl Word0Fields {
    /// The byte that carries these fields: bit 7 clear, bit 6 the wake bit,
    /// bits 5-4 the peak current, bits 3-0 the brightness.
    pub open spec fn encode(self) -> u8 {
        self.sleep_mode.code() | self.peak_current.code() | (self.brightness & 0b0000_1111)
    }
}

/// Changing the brightness changes the low four bits of the word and
/// nothing else: the new word is the old one with its low four bits replaced
/// by those of the level asked for.
pub proof fn lemma_brightness_in_word(fields: Word0Fields, brightness: u8)
    ensures
        (Word0Fields { brightness: brightness & 0b0000_1111, ..fields }).encode() == (
        fields.encode() & 0b1111_0000) | (brightness & 0b0000_1111),
        (Word0Fields { brightness: brightness & 0b0000_1111, ..fields }).encode() & 0b0000_1111
            == brightness & 0b0000_1111,
{
    let sleep: u8 = fields.sleep_mode.code();
    let current: u8 = fields.peak_current.code();
    let level: u8 = fields.brightness;
    assert((sleep | current | ((brightness & 0b0000_1111) & 0b0000_1111)) == ((sleep | current | (
    level & 0b0000_1111)) & 0b1111_0000) | (brightness & 0b0000_1111) && (sleep | current | ((
    brightness & 0b0000_1111) & 0b0000_1111)) & 0b0000_1111 == brightness & 0b0000_1111)
        by (bit_vector)
        requires
            sleep == 0b0000_0000 || sleep == 0b0100_0000,
            current == 0b0010_0000 || current == 0b0001_0000 || current == 0b0000_0000 || current
                == 0b0011_0000,
    ;
}

/// Changing the peak current changes bits 5-4 of the word and nothing else:
/// the new word is the old one with those bits replaced by the code of the
/// level asked for.
pub proof fn lemma_peak_current_in_word(fields: Word0Fields, current: PeakCurrent)
    ensures
        (Word0Fields { peak_current: current, ..fields }).encode() == (fields.encode()
            & !0b0011_0000u8) | current.code(),
{
    let sleep: u8 = fields.sleep_mode.code();
    let before: u8 = fields.peak_current.code();
    let after: u8 = current.code();
    let level: u8 = fields.brightness;
    assert((sleep | after | (level & 0b0000_1111)) == ((sleep | before | (level & 0b0000_1111))
        & !0b0011_0000u8) | after) by (bit_vector)
        requires
            sleep == 0b0000_0000 || sleep == 0b0100_0000,
            before == 0b0010_0000 || before == 0b0001_0000 || before == 0b0000_0000 || before
                == 0b0011_0000,
            after == 0b0010_0000 || after == 0b0001_0000 || after == 0b0000_0000 || after
                == 0b0011_0000,
    ;
}

/// Control word 0: brightness, peak current and sleep state.
#[derive(Debug, Clone, Copy, PartialEq, Eq)]
pub struct ControlWord0(u8);

impl View for ControlWord0 {
    type V = Word0Fields;

    closed spec fn view(&self) -> Word0Fields {
        Word0Fields {
            sleep_mode: if self.0 & 0b0100_0000 != 0 {
                SleepMode::Normal
            } else {
                SleepMode::Sleep
            },
            peak_current: if self.0 & 0b0011_0000 == 0b0010_0000 {
                PeakCurrent::Max4_0Ma
            } else if self.0 & 0b0011_0000 == 0b0001_0000 {
                PeakCurrent::Max6_4Ma
            } else if self.0 & 0b0011_0000 == 0b0000_0000 {
                PeakCurrent::Max9_3Ma
            } else {
                PeakCurrent::Max12_8Ma
            },
            brightness: self.0 & 0b0000_1111,
        }
    }
}

impl ControlWord0 {
    /// Bit 7 as it stands in this word: clear.
    pub const WORD_SELECT_BIT: u8 = 0b0000_0000;

    /// Bit 6: set while the display is awake.
    pub const WAKE_BIT: u8 = 0b0100_0000;

    /// Bits 5-4: the peak current.
    pub const PEAK_CURRENT_MASK: u8 = 0b0011_0000;

    /// Bits 3-0: the brightness level.
    pub const BRIGHTNESS_MASK: u8 = 0b0000_1111;

    /// The brightness of a fresh display.
    pub const BRIGHTNESS_DEFAULT: u8 = 0b0000_1100;

    /// Bit 7 tells the two control words apart: it is clear in word 0.
    #[verifier::type_invariant]
    spec fn tagged(self) -> bool {
        self.0 & 0b1000_0000 == 0
    }

    /// The word with every field clear: asleep, 9.3 mA, brightness 0.
    pub fn new() -> (r: Self)
        ensures
            r@ == (Word0Fields {
                sleep_mode: SleepMode::Sleep,
                peak_current: PeakCurrent::Max9_3Ma,
                brightness: 0,
            }),
    {
        assert(0u8 & 0b1000_0000 == 0 && 0u8 & 0b0100_0000 == 0 && 0u8 & 0b0011_0000 == 0 && 0u8
            & 0b0000_1111 == 0) by (bit_vector);
        ControlWord0(0b0000_0000)
    }

    /// Stores the low four bits of `brightness`; higher bits are dropped, not
    /// rejected.
    pub fn set_brightness_bits(&mut self, brightness: u8)
        ensures
            final(self)@ == (Word0Fields { brightness: brightness & 0b0000_1111, ..old(self)@ }),
    {
        let before: u8 = self.0;
        proof {
            use_type_invariant(&*self);
        }
        let after: u8 = (before & !Self::BRIGHTNESS_MASK) | (brightness & Self::BRIGHTNESS_MASK);
        assert(after & 0b1000_0000 == 0 && after & 0b0100_0000 == before & 0b0100_0000 && after
            & 0b0011_0000 == before & 0b0011_0000 && after & 0b0000_1111 == brightness
            & 0b0000_1111) by (bit_vector)
            requires
                before & 0b1000_0000 == 0,
                after == (before & !0b0000_1111u8) | (brightness & 0b0000_1111),
        ;
        self.0 = after;
    }

    /// Stores the peak current; the other fields stay as they are.
    pub fn set_peak_current_bits(&mut self, current: PeakCurrent)
        ensures
            final(self)@ == (Word0Fields { peak_current: current, ..old(self)@ }),
    {
        let before: u8 = self.0;
        proof {
            use_type_invariant(&*self);
        }
        let code: u8 = current.bitmask();
        let after: u8 = (before & !Self::PEAK_CURRENT_MASK) | code;
        assert(after & 0b1000_0000 == 0 && after & 0b0100_0000 == before & 0b0100_0000 && after
            & 0b0011_0000 == code && after & 0b0000_1111 == before & 0b0000_1111) by (bit_vector)
            requires
                before & 0b1000_0000 == 0,
                code == 0b0010_0000 || code == 0b0001_0000 || code == 0b0000_0000 || code
                    == 0b0011_0000,
                after == (before & !0b0011_0000u8) | code,
        ;
        self.0 = after;
    }

    /// Stores the sleep mode; the other fields stay as they are.
    pub fn set_wake_bit(&mut self, mode: SleepMode)
        ensures
            final(self)@ == (Word0Fields { sleep_mode: mode, ..old(self)@ }),
    {
        let before: u8 = self.0;
        proof {
            use_type_invariant(&*self);
        }
        let code: u8 = match mode {
            SleepMode::Sleep => 0b0000_0000,
            SleepMode::Normal => 0b0100_0000,
        };
        let after: u8 = (before & !Self::WAKE_BIT) | code;
        assert(after & 0b1000_0000 == 0 && after & 0b0100_0000 == code && after & 0b0011_0000
            == before & 0b0011_0000 && after & 0b0000_1111 == before & 0b0000_1111)
            by (bit_vector)
            requires
                before & 0b1000_0000 == 0,
                code == 0b0000_0000 || code == 0b0100_0000,
                after == (before & !0b0100_0000u8) | code,
        ;
        self.0 = after;
    }

    /// The byte to shift into the device.
    pub fn bits(&self) -> (r: u8)
        ensures
            r == self@.encode(),
    {
        let r: u8 = self.0;
        proof {
            use_type_invariant(self);
            let wake: u8 = self@.sleep_mode.code();
            let current: u8 = self@.peak_current.code();
            assert(wake == r & 0b0100_0000 && current == r & 0b0011_0000) by (bit_vector)
                requires
                    wake == if r & 0b0100_0000 != 0 {
                        0b0100_0000u8
                    } else {
                        0b0000_0000u8
                    },
                    current == if r & 0b0011_0000 == 0b0010_0000 {
                        0b0010_0000u8
                    } else if r & 0b0011_0000 == 0b0001_0000 {
                        0b0001_0000u8
                    } else if r & 0b0011_0000 == 0b0000_0000 {
                        0b0000_0000u8
                    } else {
                        0b0011_0000u8
                    },
            ;
            assert((r & 0b0100_0000) | (r & 0b0011_0000) | ((r & 0b0000_1111) & 0b0000_1111) == r)
                by (bit_vector)
                requires
                    r & 0b1000_0000 == 0,
            ;
        }
        r
    }

    /// The stored brightness level.
    pub fn brightness(&self) -> (r: u8)
        ensures
            r == self@.brightness,
    {
        self.0 & Self::BRIGHTNESS_MASK
    }
}

impl Default for ControlWord0 {
    /// Awake, at the default peak current, with brightness 12.
    fn default() -> (r: Self)
        ensures
            r@ == (Word0Fields {
                sleep_mode: SleepMode::Normal,
                peak_current: PeakCurrent::Max12_8Ma,
                brightness: 12,
            }),
    {
        let mut control_word = ControlWord0::new();
        control_word.set_brightness_bits(Self::BRIGHTNESS_DEFAULT);
        assert(12u8 & 0b0000_1111 == 12) by (bit_vector);
        control_word.set_peak_current_bits(PeakCurrent::default());
        control_word.set_wake_bit(SleepMode::default());
        control_word
    }
}

/// What control word 1 says, field by field.
pub struct Word1Fields {
    pub ext_osc_prescaler: ExtOscPrescaler,
    pub data_out_mode: DataOutMode,
}

impl Word1Fields {
    /// The byte that carries these fields: bit 7 set, bit 1 the prescaler,
    /// bit 0 the data-out mode, the bits between clear.
    pub open spec fn encode(self) -> u8 {
        0b1000_0000 | self.ext_osc_prescaler.code() | self.data_out_mode.code()
    }
}

/// Control word 1: data-out mode and external oscillator prescaler.
#[derive(Debug, Clone, Copy, PartialEq, Eq)]
pub struct ControlWord1(u8);

impl View for ControlWord1 {
    type V = Word1Fields;

    closed spec fn view(&self) -> Word1Fields {
        Word1Fields {
            ext_osc_prescaler: if self.0 & 0b0000_0010 != 0 {
                ExtOscPrescaler::Div8
            } else {
                ExtOscPrescaler::Direct
            },
            data_out_mode: if self.0 & 0b0000_0001 != 0 {
                DataOutMode::Simultaneous
            } else {
                DataOutMode::Serial
            },
        }
    }
}

impl ControlWord1 {
    /// Bit 7 as it stands in this word: set.
    pub const WORD_SELECT_BIT: u8 = 0b1000_0000;

    /// Bit 0: clear for serial, set for simultaneous data out.
    pub const DATA_OUT_BIT: u8 = 0b0000_0001;

    /// Bit 1: clear for the clock as it comes, set for the clock divided by eight.
    pub const EXT_OSC_PRESCALER_BIT: u8 = 0b0000_0010;

    /// Bit 7 is set in word 1, and bits 6-2 stay clear.
    #[verifier::type_invariant]
    spec fn tagged(self) -> bool {
        self.0 & 0b1111_1100 == 0b1000_0000
    }

    /// The word with both fields clear: serial data out, direct clock.
    pub fn new() -> (r: Self)
        ensures
            r@ == (Word1Fields {
                ext_osc_prescaler: ExtOscPrescaler::Direct,
                data_out_mode: DataOutMode::Serial,
            }),
    {
        assert(0b1000_0000u8 & 0b1111_1100 == 0b1000_0000 && 0b1000_0000u8 & 0b0000_0010 == 0
            && 0b1000_0000u8 & 0b0000_0001 == 0) by (bit_vector);
        ControlWord1(0b1000_0000)
    }

    /// The data-out mode the word holds.
    pub fn data_out_mode(&self) -> (r: DataOutMode)
        ensures
            r == self@.data_out_mode,
    {
        if self.0 & Self::DATA_OUT_BIT != 0 {
            DataOutMode::Simultaneous
        } else {
            DataOutMode::Serial
        }
    }

    /// Stores the data-out mode; the prescaler stays as it is.
    pub fn set_data_out_mode_bit(&mut self, bit: DataOutMode)
        ensures
            final(self)@ == (Word1Fields { data_out_mode: bit, ..old(self)@ }),
    {
        let before: u8 = self.0;
        proof {
            use_type_invariant(&*self);
        }
        let code: u8 = match bit {
            DataOutMode::Serial => 0b0000_0000,
            DataOutMode::Simultaneous => 0b0000_0001,
        };
        let after: u8 = (before & !Self::DATA_OUT_BIT) | code;
        assert(after & 0b1111_1100 == 0b1000_0000 && after & 0b0000_0010 == before & 0b0000_0010
            && after & 0b0000_0001 == code) by (bit_vector)
            requires
                before & 0b1111_1100 == 0b1000_0000,
                code == 0b0000_0000 || code == 0b0000_0001,
                after == (before & !0b0000_0001u8) | code,
        ;
        self.0 = after;
    }

    /// Stores the prescaler; the data-out mode stays as it is.
    pub fn set_ext_osc_prescaler_bit(&mut self, bit: ExtOscPrescaler)
        ensures
            final(self)@ == (Word1Fields { ext_osc_prescaler: bit, ..old(self)@ }),
    {
        let before: u8 = self.0;
        proof {
            use_type_invariant(&*self);
        }
        let code: u8 = match bit {
            ExtOscPrescaler::Direct => 0b0000_0000,
            ExtOscPrescaler::Div8 => 0b0000_0010,
        };
        let after: u8 = (before & !Self::EXT_OSC_PRESCALER_BIT) | code;
        assert(after & 0b1111_1100 == 0b1000_0000 && after & 0b0000_0010 == code && after
            & 0b0000_0001 == before & 0b0000_0001) by (bit_vector)
            requires
                before & 0b1111_1100 == 0b1000_0000,
                code == 0b0000_0000 || code == 0b0000_0010,
                after == (before & !0b0000_0010u8) | code,
        ;
        self.0 = after;
    }

    /// The byte to shift into the device.
    pub fn bits(&self) -> (r: u8)
        ensures
            r == self@.encode(),
    {
        let r: u8 = self.0;
        proof {
            use_type_invariant(self);
            let prescaler: u8 = self@.ext_osc_prescaler.code();
            let data_out: u8 = self@.data_out_mode.code();
            assert(0b1000_0000u8 | prescaler | data_out == r) by (bit_vector)
                requires
                    r & 0b1111_1100 == 0b1000_0000,
                    prescaler == if r & 0b0000_0010 != 0 {
                        0b0000_0010u8
                    } else {
                        0b0000_0000u8
                    },
                    data_out == if r & 0b0000_0001 != 0 {
                        0b0000_0001u8
                    } else {
                        0b0000_0000u8
                    },
            ;
        }
        r
    }
}

impl Default for ControlWord1 {
    /// Serial data out, direct clock.
    fn default() -> (r: Self)
        ensures
            r@ == (Word1Fields {
                ext_osc_prescaler: ExtOscPrescaler::Direct,
                data_out_mode: DataOutMode::Serial,
            }),
    {
        let mut control_word = ControlWord1::new();
        control_word.set_data_out_mode_bit(DataOutMode::default());
        control_word.set_ext_osc_prescaler_bit(ExtOscPrescaler::default());
        control_word
    }
}

} // verus!
