//! What can go wrong when driving a display.

use crate::line::Line;
use vstd::prelude::*;

verus! {

/// The errors of the driver. `PinErr` is what a line reports when it cannot
/// be driven.
#[derive(Debug, PartialEq, Eq)]
pub enum Hcms29xxError<PinErr> {
    /// The operation needs an optional line that is not connected.
    PinNotConfigured,
    /// The text of the value is longer than the display.
    ValueTooLong,
    DataPinError(PinErr),
    RsPinError(PinErr),
    ClkPinError(PinErr),
    CePinError(PinErr),
    BlankPinError(PinErr),
    OscSelPinError(PinErr),
    ResetPinError(PinErr),
}

impl<PinErr> Hcms29xxError<PinErr> {
    /// The error that stands for a failure of `line` with the given cause.
    pub open spec fn line_fault(line: Line, cause: PinErr) -> Self {
        match line {
            Line::Data => Hcms29xxError::DataPinError(cause),
            Line::RegisterSelect => Hcms29xxError::RsPinError(cause),
            Line::Clock => Hcms29xxError::ClkPinError(cause),
            Line::ChipEnable => Hcms29xxError::CePinError(cause),
            Line::Blank => Hcms29xxError::BlankPinError(cause),
            Line::OscSelect => Hcms29xxError::OscSelPinError(cause),
            Line::Reset => Hcms29xxError::ResetPinError(cause),
        }
    }

    /// Wraps what a line reported in the error of that line.
    pub fn from_line(line: Line, cause: PinErr) -> (r: Self)
        ensures
            r == Self::line_fault(line, cause),
    {
        match line {
            Line::Data => Hcms29xxError::DataPinError(cause),
            Line::RegisterSelect => Hcms29xxError::RsPinError(cause),
            Line::Clock => Hcms29xxError::ClkPinError(cause),
            Line::ChipEnable => Hcms29xxError::CePinError(cause),
            Line::Blank => Hcms29xxError::BlankPinError(cause),
            Line::OscSelect => Hcms29xxError::OscSelPinError(cause),
            Line::Reset => Hcms29xxError::ResetPinError(cause),
        }
    }
}

} // verus!
