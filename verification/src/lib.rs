//! Interrupt identity model and generic controller contract for the Arm
//! Generic Interrupt Controller (GIC), versions 2, 3 and 4.
//!
//! - [`intid`]: interrupt identifiers, their three classes, and the
//!   translation between an index within a class and an identifier.
//! - [`order`]: the order of identifiers.
//! - [`render`]: the text an identifier is shown by.
//! - [`trigger`]: edge-triggered and level-sensitive interrupts.
//! - [`gic`]: the state of a controller, the steps it takes, and the trait
//!   that every driver implements.
//! - [`soft`]: a controller held in memory, for simulation.
//!
//! Note:
//!  - Interrupt grouping (secure state) is not supported
//!  - Interrupt priority (preemption) is not supported

pub mod gic;
pub mod intid;
pub mod order;
pub mod render;
pub mod soft;
pub mod trigger;

pub use crate::gic::{GenericArmGic, GicState, Line, LineState};
pub use crate::intid::{translate_irq, IntId, InterruptType};
pub use crate::soft::SoftGic;
pub use crate::trigger::TriggerMode;
