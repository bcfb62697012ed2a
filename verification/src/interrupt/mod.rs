//! What the handlers of interrupts decide.

pub mod irq;
