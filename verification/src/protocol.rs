//! The controller's instruction set and the exact byte/line sequences the
//! driver issues.  A protocol operation is modelled as a sequence of
//! [`Action`] values; an unverified shell performs them against the bus and
//! the two discrete control lines in order, stopping at the first failure.

use vstd::prelude::*;

verus! {

// Controller instruction set (basic and extended mode opcodes).
pub const PCD8544_POWERDOWN: u8 = 0x04;

pub const PCD8544_ENTRYMODE: u8 = 0x02;

pub const PCD8544_EXTENDEDINSTRUCTION: u8 = 0x01;

pub const PCD8544_DISPLAYBLANK: u8 = 0x00;

pub const PCD8544_DISPLAYNORMAL: u8 = 0x04;

pub const PCD8544_DISPLAYALLON: u8 = 0x01;

pub const PCD8544_DISPLAYINVERTED: u8 = 0x05;

pub const PCD8544_FUNCTIONSET: u8 = 0x20;

pub const PCD8544_DISPLAYCONTROL: u8 = 0x08;

pub const PCD8544_SETYADDR: u8 = 0x40;

pub const PCD8544_SETXADDR: u8 = 0x80;

pub const PCD8544_SETTEMP: u8 = 0x04;

pub const PCD8544_SETBIAS: u8 = 0x10;

pub const PCD8544_SETVOP: u8 = 0x80;

/// Contrast applied by the construction routine.
pub const DEFAULT_CONTRAST: u8 = 40;

/// Bias ratio code applied by the construction routine.
pub const DEFAULT_BIAS: u8 = 4;

/// One primitive step against the hardware collaborators.
#[derive(Clone, Copy, Debug, PartialEq, Eq, Structural)]
pub enum Action {
    /// Set the mode-select line: `false` selects command bytes, `true`
    /// selects data bytes.
    SetDc(bool),
    /// Set the reset line level.
    SetRst(bool),
    /// Hold for the fixed 100 ms settle delay.
    Settle,
    /// Write one byte to the bus.
    Write(u8),
}

/// Steps of sending one basic command byte.
pub open spec fn command_actions(c: u8) -> Seq<Action> {
    seq![Action::SetDc(false), Action::Write(c)]
}

/// Steps of sending one data byte.
pub open spec fn data_actions(c: u8) -> Seq<Action> {
    seq![Action::SetDc(true), Action::Write(c)]
}

/// Steps of one extended command: enter extended mode, send the byte,
/// return to basic mode, and restore normal display control.
pub open spec fn extended_actions(c: u8) -> Seq<Action> {
    command_actions(PCD8544_FUNCTIONSET | PCD8544_EXTENDEDINSTRUCTION) + command_actions(c)
        + command_actions(PCD8544_FUNCTIONSET) + command_actions(
        PCD8544_DISPLAYCONTROL | PCD8544_DISPLAYNORMAL,
    )
}

/// Steps of the reset pulse: drive the line low, hold, drive it high.
pub open spec fn reset_actions() -> Seq<Action> {
    seq![Action::SetRst(false), Action::Settle, Action::SetRst(true)]
}

/// Requested contrast saturated at the controller's 7-bit maximum.
pub open spec fn clamped_contrast(contrast: u8) -> u8 {
    if contrast > 127 {
        127
    } else {
        contrast
    }
}

/// Steps of a contrast change: the "set operating voltage" extended
/// command carrying the clamped value in the low 7 bits.
pub open spec fn contrast_actions(contrast: u8) -> Seq<Action> {
    extended_actions(PCD8544_SETVOP | clamped_contrast(contrast))
}

/// Steps of a bias change: the "set bias" extended command with the raw
/// ratio code (the caller passes a valid small code; nothing is clamped).
pub open spec fn bias_actions(bias: u8) -> Seq<Action> {
    extended_actions(PCD8544_SETBIAS | bias)
}

/// The data bytes of a full refresh, one write per buffer byte in order.
pub open spec fn write_actions(buffer: Seq<u8>) -> Seq<Action> {
    Seq::new(buffer.len(), |i: int| Action::Write(buffer[i]))
}

/// Steps of a full refresh: reset the controller's column and row address
/// counters, switch to data mode, then stream the whole buffer.
pub open spec fn update_actions(buffer: Seq<u8>) -> Seq<Action> {
    command_actions(PCD8544_SETYADDR) + command_actions(PCD8544_SETXADDR) + seq![Action::SetDc(
        true,
    )] + write_actions(buffer)
}

/// Contrast saturates: every request at or above the 7-bit maximum issues
/// exactly the byte sequence of a request of 127.
pub proof fn lemma_contrast_saturates(contrast: u8)
    requires
        contrast >= 127,
    ensures
        contrast_actions(contrast) == contrast_actions(127),
{
}

} // verus!
