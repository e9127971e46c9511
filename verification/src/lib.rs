//! A bench-test source for the DCF77 longwave time broadcast.
//!
//! The crate models the three subsystems of such a device that carry real
//! engineering risk: the time-code data model with its bit-exact frame
//! serialization (parity included), the interrupt-driven scheduler that
//! amplitude-modulates a carrier one bit per second, and a two-wire (I2C)
//! bus master with a structured error taxonomy.  All hardware access goes
//! through small port traits so that the logic is independent of any
//! particular register block; simulated ports for bench use live in `sim`.

pub mod calibration;
pub mod dcf77;
pub mod i2c_controller;
pub mod i2c_display;
pub mod parity;
pub mod pwm;
pub mod scheduler;
pub mod sim;
