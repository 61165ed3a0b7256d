//! Pin-configuration vocabulary shared with the GPIO service.
//!
//! These are plain values carried in configuration requests; the
//! register writes they describe happen in the GPIO driver.

use vstd::prelude::*;

verus! {

/// A GPIO port.
#[derive(Clone, Copy, Debug, PartialEq, Eq, Structural)]
pub struct Port(pub u8);

/// A pin within a port.
#[derive(Clone, Copy, Debug, PartialEq, Eq, Structural)]
pub struct Pin(pub u8);

/// Pin direction.
#[derive(Clone, Copy, Debug, PartialEq, Eq, Structural)]
pub enum Mode {
    Input,
    Output,
    DisconnectedInput,
}

/// Output driver configuration.
#[derive(Clone, Copy, Debug, PartialEq, Eq, Structural)]
pub enum OutputType {
    PushPull,
    OpenDrain,
}

/// Pull resistor configuration.
#[derive(Clone, Copy, Debug, PartialEq, Eq, Structural)]
pub enum Pull {
    /// Both resistors off.
    Disabled,
    /// Weak pull up.
    Up,
    /// Weak pull down.
    Down,
}

} // verus!
