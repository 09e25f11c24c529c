//! Control core of a trigger-driven relay prop: debounced input monitoring,
//! cooldown-gated dispatch of timed relay sequences, and a register-level
//! driver for an 8-channel I2C output expander.
pub mod hardware;
pub mod tca9554;
pub mod sequence;
pub mod relay;
pub mod input;
mod clock;
