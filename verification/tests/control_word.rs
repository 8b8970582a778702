use hcms_29xx::{ControlWord0, ControlWord1, DataOutMode, ExtOscPrescaler, PeakCurrent, SleepMode};

#[test]
fn default_control_word_0_is_awake_at_brightness_12() {
    let word = ControlWord0::default();
    assert_eq!(word.bits(), 0b0111_1100);
    assert_eq!(PeakCurrent::default(), PeakCurrent::Max12_8Ma);
    assert_eq!(word.brightness(), 12);
}

#[test]
fn brightness_above_15_is_masked() {
    let mut word = ControlWord0::new();
    word.set_brightness_bits(0xF7);
    assert_eq!(word.brightness(), 7);
    assert_eq!(word.bits(), 0b0000_0111);
}

#[test]
fn control_word_1_fields_are_encoded_in_bits_0_and_1() {
    let mut word = ControlWord1::default();
    assert_eq!(word.bits(), 0b1000_0000);
    word.set_ext_osc_prescaler_bit(ExtOscPrescaler::Div8);
    assert_eq!(word.bits(), 0b1000_0010);
    assert_eq!(word.data_out_mode(), DataOutMode::Serial);
    word.set_data_out_mode_bit(DataOutMode::Simultaneous);
    assert_eq!(word.bits(), 0b1000_0011);
    assert_eq!(word.data_out_mode(), DataOutMode::Simultaneous);
}

#[test]
fn peak_current_codes() {
    assert_eq!(PeakCurrent::Max4_0Ma.bitmask(), 0b0010_0000);
    assert_eq!(PeakCurrent::Max6_4Ma.bitmask(), 0b0001_0000);
    assert_eq!(PeakCurrent::Max9_3Ma.bitmask(), 0b0000_0000);
    assert_eq!(PeakCurrent::Max12_8Ma.bitmask(), 0b0011_0000);
    let mut word = ControlWord0::new();
    word.set_wake_bit(SleepMode::Normal);
    word.set_peak_current_bits(PeakCurrent::Max12_8Ma);
    assert_eq!(word.bits(), 0b0111_0000);
}
