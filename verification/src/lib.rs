//! Driver core for HCMS-29xx dot-matrix LED displays: 5x7 pixel characters,
//! four to a device, devices chained to wider displays.
//!
//! The driver turns requests (clear, print text, print a number, change
//! brightness, current or sleep state) into the line operations of the
//! bit-serial protocol. It drives no line itself: the caller carries the
//! operations out and reports how each went.

pub mod control_word;
pub mod display;
pub mod error;
pub mod font5x7;
pub mod format;
pub mod line;
pub mod transfer;

pub use control_word::{
    ControlWord0, ControlWord1, DataOutMode, ExtOscPrescaler, PeakCurrent, SleepMode,
};
pub use display::{Hcms29xx, Setup};
pub use error::Hcms29xxError;
pub use font5x7::{CHAR_HEIGHT, CHAR_WIDTH, FONT5X7};
pub use format::Decimal;
pub use line::{Level, Line, LineOp};
pub use transfer::Transfer;
