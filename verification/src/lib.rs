//! Display driver logic for a MIDAS MCCOG22005A6W-SPTLYI character LCD attached
//! to I2C module 2 of a TM4C129 microcontroller, together with the clock that
//! the firmware shows on it.
//!
//! The functions here decide what goes on the bus; they return plans
//! ([`i2c::BusOp`] sequences) that the firmware executes against the
//! peripheral registers. [`lcd_model`] describes what such plans do to the
//! display controller's memory, so that laws can speak of what is shown.

pub mod board;
pub mod console;
pub mod firmware;
pub mod i2c;
pub mod lcd;
pub mod lcd_model;
