use hcms_29xx::{Hcms29xxError, Level, Line, LineOp, Transfer};

fn drain(transfer: &mut Transfer) -> Vec<LineOp> {
    let mut ops = Vec::new();
    while let Some(op) = transfer.next_op() {
        ops.push(op);
        transfer.complete::<()>(Ok(())).unwrap();
    }
    ops
}

fn op(line: Line, level: Level) -> LineOp {
    LineOp { line, level }
}

#[test]
fn dot_mode_is_clock_high_rs_low_ce_low() {
    let mut t = Transfer::new();
    t.set_dot_data();
    assert_eq!(
        drain(&mut t),
        vec![
            op(Line::Clock, Level::High),
            op(Line::RegisterSelect, Level::Low),
            op(Line::ChipEnable, Level::Low),
        ]
    );
}

#[test]
fn control_mode_is_clock_high_rs_high_ce_low() {
    let mut t = Transfer::new();
    t.set_control_data();
    assert_eq!(
        drain(&mut t),
        vec![
            op(Line::Clock, Level::High),
            op(Line::RegisterSelect, Level::High),
            op(Line::ChipEnable, Level::Low),
        ]
    );
}

#[test]
fn end_is_ce_high_then_clock_low() {
    let mut t = Transfer::new();
    t.end_transfer();
    assert_eq!(
        drain(&mut t),
        vec![op(Line::ChipEnable, Level::High), op(Line::Clock, Level::Low)]
    );
}

#[test]
fn byte_goes_out_most_significant_bit_first() {
    let mut t = Transfer::new();
    t.send_byte(0b1010_0001);
    let ops = drain(&mut t);
    assert_eq!(ops.len(), 24);
    let expected = [true, false, true, false, false, false, false, true];
    for (i, bit) in expected.iter().enumerate() {
        assert_eq!(ops[3 * i], op(Line::Clock, Level::Low));
        let level = if *bit { Level::High } else { Level::Low };
        assert_eq!(ops[3 * i + 1], op(Line::Data, level));
        assert_eq!(ops[3 * i + 2], op(Line::Clock, Level::High));
    }
}

#[test]
fn runs_of_bytes() {
    let mut a = Transfer::new();
    a.send_bytes(&[0x12, 0x34]);
    let mut b = Transfer::new();
    b.send_byte(0x12);
    b.send_byte(0x34);
    assert_eq!(drain(&mut a), drain(&mut b));
    let mut c = Transfer::new();
    c.send_repeated(0x6C, 3);
    let mut d = Transfer::new();
    d.send_bytes(&[0x6C, 0x6C, 0x6C]);
    assert_eq!(drain(&mut c), drain(&mut d));
}

#[test]
fn failure_names_the_line_and_drops_the_rest() {
    let lines = [
        (Line::Data, Hcms29xxError::DataPinError(7u8)),
        (Line::RegisterSelect, Hcms29xxError::RsPinError(7u8)),
        (Line::Clock, Hcms29xxError::ClkPinError(7u8)),
        (Line::ChipEnable, Hcms29xxError::CePinError(7u8)),
        (Line::Blank, Hcms29xxError::BlankPinError(7u8)),
        (Line::OscSelect, Hcms29xxError::OscSelPinError(7u8)),
        (Line::Reset, Hcms29xxError::ResetPinError(7u8)),
    ];
    for (line, error) in lines {
        let mut t = Transfer::new();
        t.drive(line, Level::High);
        t.drive(Line::Clock, Level::Low);
        assert_eq!(t.complete(Err(7u8)), Err(error));
        assert!(t.is_idle());
        assert_eq!(t.next_op(), None);
    }
}

#[test]
fn success_moves_to_the_next_operation() {
    let mut t = Transfer::new();
    assert!(t.is_idle());
    t.drive(Line::Data, Level::Low);
    t.drive(Line::Clock, Level::High);
    assert_eq!(t.next_op(), Some(op(Line::Data, Level::Low)));
    assert_eq!(t.next_op(), Some(op(Line::Data, Level::Low)));
    assert_eq!(t.complete::<u8>(Ok(())), Ok(()));
    assert_eq!(t.next_op(), Some(op(Line::Clock, Level::High)));
    assert_eq!(t.complete::<u8>(Ok(())), Ok(()));
    assert!(t.is_idle());
}

#[test]
fn from_line_wraps_the_cause() {
    assert_eq!(
        Hcms29xxError::from_line(Line::Blank, "stuck"),
        Hcms29xxError::BlankPinError("stuck")
    );
}
