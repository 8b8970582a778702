//! The transfer engine: line operations queued in order and handed out one at
//! a time, each answered before the next is given.

use crate::error::Hcms29xxError;
use crate::line::{
    bit_at, bit_ops, bits_ops, byte_ops, bytes_ops, end_ops, enter_ops, Level, Line, LineOp,
    Register,
};
use std::collections::VecDeque;
use vstd::prelude::*;

verus! {

/// Line operations waiting to be carried out. The caller takes the next one
/// with [`Transfer::next_op`], drives the line, and reports how that went with
/// [`Transfer::complete`]; a failure drops everything that was still waiting.
pub struct Transfer {
    ops: VecDeque<LineOp>,
}

impl View for Transfer {
    type V = Seq<LineOp>;

    /// The operations not yet carried out, in the order they will be.
    closed spec fn view(&self) -> Seq<LineOp> {
        self.ops@
    }
}

impl Transfer {
    /// A transfer with nothing to do.
    pub fn new() -> (t: Self)
        ensures
            t@ == Seq::<LineOp>::empty(),
    {
        Transfer { ops: VecDeque::new() }
    }

    /// Whether nothing is waiting.
    pub fn is_idle(&self) -> (r: bool)
        ensures
            r == (self@.len() == 0),
    {
        self.ops.len() == 0
    }

    /// The operation to carry out next, if any is waiting.
    pub fn next_op(&self) -> (r: Option<LineOp>)
        ensures
            r == if self@.len() > 0 {
                Some(self@[0])
            } else {
                None::<LineOp>
            },
    {
        if self.ops.len() > 0 {
            Some(self.ops[0])
        } else {
            None
        }
    }

    /// Takes the outcome of the operation that [`Transfer::next_op`] gave.
    /// After a success the next operation is up. After a failure nothing is
    /// left waiting, and the error names the line that failed and carries
    /// what it reported.
    pub fn complete<PinErr>(&mut self, outcome: Result<(), PinErr>) -> (r: Result<
        (),
        Hcms29xxError<PinErr>,
    >)
        requires
            old(self)@.len() > 0,
        ensures
            match outcome {
                Ok(()) => r is Ok && final(self)@ == old(self)@.drop_first(),
                Err(cause) => r == Err::<(), Hcms29xxError<PinErr>>(
                    Hcms29xxError::line_fault(old(self)@[0].line, cause),
                ) && final(self)@ == Seq::<LineOp>::empty(),
            },
    {
        match outcome {
            Ok(()) => {
                let _ = self.ops.pop_front();
                assert(self@ =~= old(self)@.drop_first());
                Ok(())
            },
            Err(cause) => {
                let line = self.ops[0].line;
                self.ops.clear();
                Err(Hcms29xxError::from_line(line, cause))
            },
        }
    }

    /// Queues one operation.
    pub fn drive(&mut self, line: Line, level: Level)
        ensures
            final(self)@ == old(self)@.push(LineOp { line, level }),
    {
        self.ops.push_back(LineOp { line, level });
    }

    /// Opens a transfer of pixel columns.
    pub fn set_dot_data(&mut self)
        ensures
            final(self)@ == old(self)@ + enter_ops(Register::DotData),
    {
        self.drive(Line::Clock, Level::High);
        self.drive(Line::RegisterSelect, Level::Low);
        self.drive(Line::ChipEnable, Level::Low);
        assert(self@ =~= old(self)@ + enter_ops(Register::DotData));
    }

    /// Opens a transfer of control words.
    pub fn set_control_data(&mut self)
        ensures
            final(self)@ == old(self)@ + enter_ops(Register::Control),
    {
        self.drive(Line::Clock, Level::High);
        self.drive(Line::RegisterSelect, Level::High);
        self.drive(Line::ChipEnable, Level::Low);
        assert(self@ =~= old(self)@ + enter_ops(Register::Control));
    }

    /// Shifts one byte in, most significant bit first: for each bit the
    /// clock goes low, the data line takes the bit, and the clock goes high.
    pub fn send_byte(&mut self, byte: u8)
        ensures
            final(self)@ == old(self)@ + byte_ops(byte),
    {
        let mut i: u8 = 0;
        assert(self@ =~= old(self)@ + bits_ops(byte, 0));
        while i < 8
            invariant
                i <= 8,
                self@ == old(self)@ + bits_ops(byte, i as nat),
            decreases 8 - i,
        {
            let ghost before = self@;
            self.drive(Line::Clock, Level::Low);
            if (byte & (0x80u8 >> i)) != 0 {
                self.drive(Line::Data, Level::High);
            } else {
                self.drive(Line::Data, Level::Low);
            }
            self.drive(Line::Clock, Level::High);
            assert(self@ =~= before + bit_ops(bit_at(byte, i)));
            assert(self@ =~= old(self)@ + bits_ops(byte, (i + 1) as nat));
            i = i + 1;
        }
    }

    /// Shifts a run of bytes in, one after the other.
    pub fn send_bytes(&mut self, bytes: &[u8])
        ensures
            final(self)@ == old(self)@ + bytes_ops(bytes@),
    {
        let mut i: usize = 0;
        assert(self@ =~= old(self)@ + bytes_ops(bytes@.take(0)));
        while i < bytes.len()
            invariant
                i <= bytes.len(),
                self@ == old(self)@ + bytes_ops(bytes@.take(i as int)),
            decreases bytes.len() - i,
        {
            self.send_byte(bytes[i]);
            proof {
                assert(bytes@.take(i + 1).drop_last() =~= bytes@.take(i as int));
                assert(self@ =~= old(self)@ + bytes_ops(bytes@.take(i + 1)));
            }
            i = i + 1;
        }
        assert(bytes@.take(bytes.len() as int) =~= bytes@);
    }

    /// Shifts the same byte in `times` times.
    pub fn send_repeated(&mut self, byte: u8, times: usize)
        ensures
            final(self)@ == old(self)@ + bytes_ops(Seq::new(times as nat, |i: int| byte)),
    {
        let mut i: usize = 0;
        assert(self@ =~= old(self)@ + bytes_ops(Seq::new(0, |i: int| byte)));
        while i < times
            invariant
                i <= times,
                self@ == old(self)@ + bytes_ops(Seq::new(i as nat, |k: int| byte)),
            decreases times - i,
        {
            self.send_byte(byte);
            proof {
                let next = Seq::new((i + 1) as nat, |k: int| byte);
                assert(next.drop_last() =~= Seq::new(i as nat, |k: int| byte));
                assert(self@ =~= old(self)@ + bytes_ops(next));
            }
            i = i + 1;
        }
    }

    /// Closes a transfer: chip enable goes high, which latches what was
    /// shifted in, and the clock returns to low.
    pub fn end_transfer(&mut self)
        ensures
            final(self)@ == old(self)@ + end_ops(),
    {
        self.drive(Line::ChipEnable, Level::High);
        self.drive(Line::Clock, Level::Low);
        assert(self@ =~= old(self)@ + end_ops());
    }
}

} // verus!
