//! How the controller samples an interrupt line.

use vstd::prelude::*;

verus! {

/// Interrupt trigger mode.
#[derive(Copy, Clone, Debug, PartialEq, Eq, Structural)]
pub enum TriggerMode {
    /// Edge-triggered.
    ///
    /// This is an interrupt that is asserted on detection of a rising edge of
    /// an interrupt signal and then, regardless of the state of the signal,
    /// remains asserted until it is acknowledged and ended.
    Edge,
    /// Level-sensitive.
    ///
    /// This is an interrupt that is asserted whenever the interrupt signal
    /// level is active, and deasserted whenever the level is not active.
    Level,
}

} // verus!
