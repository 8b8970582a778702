use hcms_29xx::font5x7::glyph;
use hcms_29xx::{
    DataOutMode, Decimal, Hcms29xx, Hcms29xxError, Level, Line, LineOp, PeakCurrent, Setup,
};

type Error = Hcms29xxError<u8>;

fn op(line: Line, level: Level) -> LineOp {
    LineOp { line, level }
}

fn display(num_chars: usize, blank: bool, osc_sel: bool, reset: bool) -> Hcms29xx {
    let mut setup = Setup::new(num_chars, blank, osc_sel, reset).unwrap();
    while setup.next_op().is_some() {
        setup.complete::<u8>(Ok(())).unwrap();
    }
    Hcms29xx::new(setup).unwrap()
}

fn run(display: &mut Hcms29xx) -> Vec<LineOp> {
    let mut ops = Vec::new();
    while let Some(next) = display.next_op() {
        ops.push(next);
        display.complete::<u8>(Ok(())).unwrap();
    }
    ops
}

/// Reads line operations back as transfers: for each, whether it addresses
/// the control register, and the bytes shifted in.
fn transfers(ops: &[LineOp]) -> Vec<(bool, Vec<u8>)> {
    let mut found = Vec::new();
    let mut at = 0;
    while at < ops.len() {
        assert_eq!(ops[at], op(Line::Clock, Level::High));
        assert_eq!(ops[at + 1].line, Line::RegisterSelect);
        let control = ops[at + 1].level == Level::High;
        assert_eq!(ops[at + 2], op(Line::ChipEnable, Level::Low));
        at += 3;
        let mut bytes = Vec::new();
        while ops[at] == op(Line::Clock, Level::Low) {
            let mut byte = 0u8;
            for _ in 0..8 {
                assert_eq!(ops[at], op(Line::Clock, Level::Low));
                assert_eq!(ops[at + 1].line, Line::Data);
                byte = (byte << 1) | (ops[at + 1].level == Level::High) as u8;
                assert_eq!(ops[at + 2], op(Line::Clock, Level::High));
                at += 3;
            }
            bytes.push(byte);
        }
        assert_eq!(ops[at], op(Line::ChipEnable, Level::High));
        assert_eq!(ops[at + 1], op(Line::Clock, Level::Low));
        at += 2;
        found.push((control, bytes));
    }
    found
}

fn columns(text: &[u8]) -> Vec<u8> {
    text.iter().flat_map(|c| glyph(*c).unwrap()).collect()
}

#[test]
fn construction_drives_the_idle_levels() {
    let mut setup = Setup::new(4, true, true, true).unwrap();
    let mut ops = Vec::new();
    while let Some(next) = setup.next_op() {
        ops.push(next);
        setup.complete::<u8>(Ok(())).unwrap();
    }
    assert_eq!(
        ops,
        vec![
            op(Line::Data, Level::Low),
            op(Line::ChipEnable, Level::High),
            op(Line::Blank, Level::High),
            op(Line::OscSelect, Level::High),
            op(Line::Reset, Level::High),
        ]
    );
    assert!(Hcms29xx::new(setup).is_some());
}

#[test]
fn construction_skips_lines_that_are_not_connected() {
    let mut setup = Setup::new(4, false, false, false).unwrap();
    assert_eq!(setup.next_op(), Some(op(Line::Data, Level::Low)));
    setup.complete::<u8>(Ok(())).unwrap();
    assert_eq!(setup.next_op(), Some(op(Line::ChipEnable, Level::High)));
    setup.complete::<u8>(Ok(())).unwrap();
    assert_eq!(setup.next_op(), None);
}

#[test]
fn fewer_than_four_characters_is_no_display() {
    assert!(Setup::new(3, false, false, false).is_none());
    assert!(Setup::new(0, true, true, true).is_none());
    assert!(Setup::new(4, false, false, false).is_some());
}

#[test]
fn failed_construction_yields_no_instance_and_stops() {
    let mut setup = Setup::new(8, true, true, true).unwrap();
    setup.complete::<u8>(Ok(())).unwrap();
    setup.complete::<u8>(Ok(())).unwrap();
    assert_eq!(setup.next_op(), Some(op(Line::Blank, Level::High)));
    assert_eq!(setup.complete(Err(9u8)), Err(Hcms29xxError::BlankPinError(9u8)));
    assert_eq!(setup.next_op(), None);
    assert!(Hcms29xx::new(setup).is_none());
}

#[test]
fn unfinished_construction_yields_no_instance() {
    let mut setup = Setup::new(8, false, false, false).unwrap();
    setup.complete::<u8>(Ok(())).unwrap();
    assert!(Hcms29xx::new(setup).is_none());
}

#[test]
fn fresh_display_has_the_defaults() {
    let d = display(8, false, false, false);
    assert_eq!(d.num_chars(), 8);
    assert_eq!(d.control_word_0().bits(), 0b0111_1100);
    assert_eq!(d.control_word_1().bits(), 0b1000_0000);
    assert_eq!(d.data_out_mode(), DataOutMode::Serial);
    assert_eq!(d.font_ascii_start_index(), 0x1F);
    assert!(d.is_idle());
}

#[test]
fn clear_shifts_in_blank_columns() {
    let mut d = display(8, false, false, false);
    d.clear();
    let ops = run(&mut d);
    assert_eq!(ops.len(), 3 + 24 * 40 + 2);
    assert_eq!(transfers(&ops), vec![(false, vec![0u8; 40])]);
}

#[test]
fn begin_clears_then_pushes_both_control_words() {
    let mut d = display(8, false, false, false);
    d.begin();
    let ops = run(&mut d);
    assert_eq!(
        transfers(&ops),
        vec![
            (false, vec![0u8; 40]),
            (true, vec![0b0111_1100; 2]),
            (true, vec![0b1000_0000; 2]),
        ]
    );
    assert!(d.is_idle());
}

#[test]
fn raw_columns_go_out_verbatim() {
    let mut d = display(4, false, false, false);
    d.print_cols(&[0x01, 0x80, 0xFF, 0x00, 0x55]);
    assert_eq!(transfers(&run(&mut d)), vec![(false, vec![0x01, 0x80, 0xFF, 0x00, 0x55])]);
    d.print_cols(&[]);
    assert_eq!(transfers(&run(&mut d)), vec![(false, vec![])]);
}

#[test]
fn text_is_rendered_with_the_font() {
    let mut d = display(4, false, false, false);
    d.print_ascii_bytes(b"Hi!~");
    assert_eq!(transfers(&run(&mut d)), vec![(false, columns(b"Hi!~"))]);
}

#[test]
fn text_is_cut_at_the_end_of_the_display() {
    let mut d = display(4, false, false, false);
    d.print_ascii_bytes(b"ABCDEFGH");
    assert_eq!(transfers(&run(&mut d)), vec![(false, columns(b"ABCD"))]);
}

#[test]
fn short_text_leaves_the_rest_unwritten() {
    let mut d = display(8, false, false, false);
    d.print_ascii_bytes(b"AB");
    assert_eq!(transfers(&run(&mut d)), vec![(false, columns(b"AB"))]);
}

#[test]
fn byte_below_the_font_stops_the_rendering() {
    let mut d = display(8, false, false, false);
    d.print_ascii_bytes(b"AB\x0ACD");
    let ops = run(&mut d);
    assert_eq!(ops.len(), 3 + 24 * 5 * 2 + 2);
    assert_eq!(transfers(&ops), vec![(false, columns(b"AB"))]);
    d.print_ascii_bytes(b"\x00ABC");
    assert_eq!(transfers(&run(&mut d)), vec![(false, vec![])]);
}

#[test]
fn byte_beyond_the_font_stops_the_rendering() {
    let mut d = display(8, false, false, false);
    d.print_ascii_bytes(&[b'A', 0x80, b'B']);
    assert_eq!(transfers(&run(&mut d)), vec![(false, columns(b"A"))]);
}

#[test]
fn signed_integers_on_four_characters() {
    let mut d = display(4, false, false, false);
    assert_eq!(d.print_int::<u8>(-999), Ok(()));
    assert_eq!(transfers(&run(&mut d)), vec![(false, columns(b"-999"))]);
    assert_eq!(d.print_int::<u8>(-1000), Err(Error::ValueTooLong));
    assert!(d.is_idle());
    assert_eq!(d.print_i32::<u8>(-1000), Err(Error::ValueTooLong));
    assert_eq!(d.print_i32::<u8>(42), Ok(()));
    assert_eq!(transfers(&run(&mut d)), vec![(false, columns(b"  42"))]);
}

#[test]
fn unsigned_integers_on_four_characters() {
    let mut d = display(4, false, false, false);
    assert_eq!(d.print_uint::<u8>(9999), Ok(()));
    assert_eq!(transfers(&run(&mut d)), vec![(false, columns(b"9999"))]);
    assert_eq!(d.print_uint::<u8>(10000), Err(Error::ValueTooLong));
    assert_eq!(d.next_op(), None);
    assert_eq!(d.print_u32::<u8>(10000), Err(Error::ValueTooLong));
    assert_eq!(d.print_u32::<u8>(0), Ok(()));
    assert_eq!(transfers(&run(&mut d)), vec![(false, columns(b"   0"))]);
}

#[test]
fn floats_and_specials() {
    let mut d = display(4, false, false, false);
    assert_eq!(d.print_float::<u8>(Decimal::NotANumber, 2), Ok(()));
    assert_eq!(transfers(&run(&mut d)), vec![(false, columns(b" NaN"))]);
    assert_eq!(d.print_float::<u8>(Decimal::Infinite { negative: false }, 7), Ok(()));
    assert_eq!(transfers(&run(&mut d)), vec![(false, columns(b"+Inf"))]);
    assert_eq!(d.print_float::<u8>(Decimal::Infinite { negative: true }, 0), Ok(()));
    assert_eq!(transfers(&run(&mut d)), vec![(false, columns(b"-Inf"))]);
    let value = Decimal::Finite { negative: true, scaled: 15 };
    assert_eq!(d.print_float::<u8>(value, 1), Ok(()));
    assert_eq!(transfers(&run(&mut d)), vec![(false, columns(b"-1.5"))]);
    assert_eq!(d.print_float::<u8>(value, 2), Err(Error::ValueTooLong));
    assert!(d.is_idle());
}

#[test]
fn floats_beyond_32_bits() {
    let mut d = display(12, false, false, false);
    let value = Decimal::Finite { negative: false, scaled: 10_000_000_000 };
    assert_eq!(d.print_float::<u8>(value, 0), Ok(()));
    assert_eq!(transfers(&run(&mut d)), vec![(false, columns(b" 10000000000"))]);
    assert_eq!(d.print_float::<u8>(Decimal::TooLarge, 0), Err(Error::ValueTooLong));
    assert!(d.is_idle());
    let mut d = display(8, false, false, false);
    assert_eq!(d.print_float::<u8>(value, 0), Err(Error::ValueTooLong));
    assert!(d.is_idle());
}

#[test]
fn converted_values_are_signed_first() {
    let mut d = display(4, false, false, false);
    assert_eq!(d.print_converted::<u8>(Some(-999), None), Ok(()));
    assert_eq!(transfers(&run(&mut d)), vec![(false, columns(b"-999"))]);
    assert_eq!(d.print_converted::<u8>(Some(999), Some(999)), Ok(()));
    assert_eq!(transfers(&run(&mut d)), vec![(false, columns(b" 999"))]);
    assert_eq!(d.print_converted::<u8>(Some(1000), Some(1000)), Err(Error::ValueTooLong));
    assert_eq!(d.print_converted::<u8>(None, Some(9999)), Ok(()));
    assert_eq!(transfers(&run(&mut d)), vec![(false, columns(b"9999"))]);
    assert_eq!(d.print_converted::<u8>(None, Some(10000)), Err(Error::ValueTooLong));
    assert_eq!(d.print_converted::<u8>(None, None), Err(Error::ValueTooLong));
    assert!(d.is_idle());
}

#[test]
fn control_word_is_queued_once_for_each_device_or_once() {
    let d = display(12, false, false, false);
    let mut t = hcms_29xx::Transfer::new();
    d.update_control_word(&mut t, 0xA5);
    let mut ops = Vec::new();
    while let Some(next) = t.next_op() {
        ops.push(next);
        t.complete::<u8>(Ok(())).unwrap();
    }
    assert_eq!(transfers(&ops), vec![(true, vec![0xA5; 3])]);
    let mut d = display(12, false, false, false);
    d.set_simultaneous_data_out();
    run(&mut d);
    let mut t = hcms_29xx::Transfer::new();
    d.update_control_word(&mut t, 0xA5);
    let mut ops = Vec::new();
    while let Some(next) = t.next_op() {
        ops.push(next);
        t.complete::<u8>(Ok(())).unwrap();
    }
    assert_eq!(transfers(&ops), vec![(true, vec![0xA5])]);
}

#[test]
fn construction_fails_at_each_step_with_the_error_of_its_line() {
    let steps = [
        (op(Line::Data, Level::Low), Hcms29xxError::DataPinError(3u8)),
        (op(Line::ChipEnable, Level::High), Hcms29xxError::CePinError(3u8)),
        (op(Line::Blank, Level::High), Hcms29xxError::BlankPinError(3u8)),
        (op(Line::OscSelect, Level::High), Hcms29xxError::OscSelPinError(3u8)),
        (op(Line::Reset, Level::High), Hcms29xxError::ResetPinError(3u8)),
    ];
    for k in 0..steps.len() {
        let mut setup = Setup::new(4, true, true, true).unwrap();
        let mut driven = Vec::new();
        let mut result = Ok(());
        while let Some(next) = setup.next_op() {
            driven.push(next);
            let outcome = if driven.len() == k + 1 { Err(3u8) } else { Ok(()) };
            result = setup.complete(outcome);
            if result.is_err() {
                break;
            }
        }
        assert_eq!(result.as_ref().err(), Some(&steps[k].1));
        let expected: Vec<LineOp> = steps[..=k].iter().map(|s| s.0).collect();
        assert_eq!(driven, expected);
        assert_eq!(setup.next_op(), None);
        assert!(Hcms29xx::new(setup).is_none());
    }
}

#[test]
fn brightness_is_masked_to_four_bits() {
    for b in 0..=255u8 {
        let mut d = display(4, false, false, false);
        d.set_brightness(b);
        assert_eq!(d.control_word_0().brightness(), b & 0x0F);
        assert_eq!(d.control_word_0().bits(), 0b0111_0000 | (b & 0x0F));
        assert_eq!(transfers(&run(&mut d)), vec![(true, vec![0b0111_0000 | (b & 0x0F)])]);
    }
}

#[test]
fn peak_current_and_sleep_change_control_word_0() {
    let mut d = display(4, false, false, false);
    d.set_peak_current(PeakCurrent::Max4_0Ma);
    assert_eq!(transfers(&run(&mut d)), vec![(true, vec![0b0110_1100])]);
    d.set_peak_current(PeakCurrent::Max6_4Ma);
    assert_eq!(transfers(&run(&mut d)), vec![(true, vec![0b0101_1100])]);
    d.set_peak_current(PeakCurrent::Max12_8Ma);
    assert_eq!(transfers(&run(&mut d)), vec![(true, vec![0b0111_1100])]);
    d.display_sleep();
    assert_eq!(transfers(&run(&mut d)), vec![(true, vec![0b0011_1100])]);
    d.display_wake();
    assert_eq!(transfers(&run(&mut d)), vec![(true, vec![0b0111_1100])]);
    d.set_peak_current(PeakCurrent::Max9_3Ma);
    assert_eq!(transfers(&run(&mut d)), vec![(true, vec![0b0100_1100])]);
}

#[test]
fn prescaler_changes_bit_1_of_control_word_1() {
    let mut d = display(4, false, false, false);
    d.set_ext_osc_prescale_div8();
    assert_eq!(transfers(&run(&mut d)), vec![(true, vec![0b1000_0010])]);
    assert_eq!(d.data_out_mode(), DataOutMode::Serial);
    d.set_ext_osc_prescale_direct();
    assert_eq!(transfers(&run(&mut d)), vec![(true, vec![0b1000_0000])]);
}

#[test]
fn control_words_fan_out_by_data_out_mode() {
    let mut d = display(16, false, false, false);
    d.set_brightness(3);
    assert_eq!(transfers(&run(&mut d)), vec![(true, vec![0b0111_0011; 4])]);
    // still serial while the switch is on the wire
    d.set_simultaneous_data_out();
    assert_eq!(d.data_out_mode(), DataOutMode::Serial);
    assert_eq!(transfers(&run(&mut d)), vec![(true, vec![0b1000_0001; 4])]);
    assert_eq!(d.data_out_mode(), DataOutMode::Simultaneous);
    d.set_brightness(3);
    assert_eq!(transfers(&run(&mut d)), vec![(true, vec![0b0111_0011])]);
    d.set_serial_data_out();
    assert_eq!(transfers(&run(&mut d)), vec![(true, vec![0b1000_0000])]);
    assert_eq!(d.data_out_mode(), DataOutMode::Serial);
    d.set_brightness(3);
    assert_eq!(transfers(&run(&mut d)), vec![(true, vec![0b0111_0011; 4])]);
}

#[test]
fn chain_length_is_divided_by_four() {
    let mut d = display(6, false, false, false);
    d.display_wake();
    assert_eq!(transfers(&run(&mut d)), vec![(true, vec![0b0111_1100])]);
    let mut d = display(11, false, false, false);
    d.display_wake();
    assert_eq!(transfers(&run(&mut d)), vec![(true, vec![0b0111_1100; 2])]);
}

#[test]
fn failed_switch_leaves_the_mode_in_force() {
    let mut d = display(8, false, false, false);
    d.set_simultaneous_data_out();
    assert_eq!(d.next_op(), Some(op(Line::Clock, Level::High)));
    d.complete::<u8>(Ok(())).unwrap();
    assert_eq!(d.complete(Err(1u8)), Err(Error::RsPinError(1)));
    assert!(d.is_idle());
    assert_eq!(d.data_out_mode(), DataOutMode::Serial);
    assert_eq!(d.control_word_1().data_out_mode(), DataOutMode::Simultaneous);
    // the next push of control word 1 brings the mode in line with the word
    d.set_ext_osc_prescale_direct();
    assert_eq!(transfers(&run(&mut d)), vec![(true, vec![0b1000_0001; 2])]);
    assert_eq!(d.data_out_mode(), DataOutMode::Simultaneous);
}

#[test]
fn line_failure_ends_the_transfer_with_the_error_of_the_line() {
    let mut d = display(4, false, false, false);
    d.clear();
    assert_eq!(d.complete(Err(5u8)), Err(Error::ClkPinError(5)));
    assert_eq!(d.next_op(), None);
    d.clear();
    for _ in 0..3 {
        d.complete::<u8>(Ok(())).unwrap();
    }
    d.complete::<u8>(Ok(())).unwrap();
    assert_eq!(d.next_op(), Some(op(Line::Data, Level::Low)));
    assert_eq!(d.complete(Err(6u8)), Err(Error::DataPinError(6)));
    assert!(d.is_idle());
    d.clear();
    d.complete::<u8>(Ok(())).unwrap();
    d.complete::<u8>(Ok(())).unwrap();
    assert_eq!(d.complete(Err(2u8)), Err(Error::CePinError(2)));
    // the display recovers with the next full transfer
    d.clear();
    assert_eq!(transfers(&run(&mut d)), vec![(false, vec![0u8; 20])]);
}

#[test]
fn optional_lines_that_are_connected() {
    let mut d = display(4, true, true, true);
    assert_eq!(d.display_blank::<u8>(), Ok(()));
    assert_eq!(run(&mut d), vec![op(Line::Blank, Level::High)]);
    assert_eq!(d.display_unblank::<u8>(), Ok(()));
    assert_eq!(run(&mut d), vec![op(Line::Blank, Level::Low)]);
    assert_eq!(d.reset::<u8>(), Ok(()));
    assert_eq!(run(&mut d), vec![op(Line::Reset, Level::Low), op(Line::Reset, Level::High)]);
    assert_eq!(d.set_ext_osc::<u8>(), Ok(()));
    assert_eq!(run(&mut d), vec![op(Line::OscSelect, Level::Low)]);
    assert_eq!(d.set_int_osc::<u8>(), Ok(()));
    assert_eq!(run(&mut d), vec![op(Line::OscSelect, Level::High)]);
    assert_eq!(d.reset::<u8>(), Ok(()));
    assert_eq!(d.complete(Err(4u8)), Err(Error::ResetPinError(4)));
    assert!(d.is_idle());
    assert_eq!(d.set_ext_osc::<u8>(), Ok(()));
    assert_eq!(d.complete(Err(4u8)), Err(Error::OscSelPinError(4)));
}

#[test]
fn optional_lines_that_are_not_connected() {
    let mut d = display(4, false, false, false);
    assert_eq!(d.display_blank::<u8>(), Err(Error::PinNotConfigured));
    assert_eq!(d.display_unblank::<u8>(), Err(Error::PinNotConfigured));
    assert_eq!(d.reset::<u8>(), Err(Error::PinNotConfigured));
    assert_eq!(d.set_ext_osc::<u8>(), Err(Error::PinNotConfigured));
    assert_eq!(d.set_int_osc::<u8>(), Err(Error::PinNotConfigured));
    assert!(d.is_idle());
    let mut d = display(4, true, false, false);
    assert_eq!(d.display_blank::<u8>(), Ok(()));
    run(&mut d);
    assert_eq!(d.reset::<u8>(), Err(Error::PinNotConfigured));
}
