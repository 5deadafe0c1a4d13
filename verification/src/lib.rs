//! Flight decisions of a small quadcopter.
//!
//! The crate holds what the flight controllers and the ground station decide
//! and the formats they exchange; every item is verified. Arithmetic on
//! floating-point quantities, hardware access and timing stay with the caller,
//! which hands their results in as plain values. A single-precision number
//! travels as its bit pattern, see [`single::Single`].

pub mod attitude;
pub mod calibrate;
pub mod control;
pub mod crsf_parser;
pub mod flight;
pub mod ground;
pub mod gyro_bias;
pub mod mag_calibration;
pub mod mixer;
pub mod motors;
pub mod pid;
pub mod radio;
pub mod rounding;
pub mod settings;
pub mod single;
pub mod telemetry;
pub mod telemetry_verbose;
pub mod timing;
pub mod tuning;
pub mod wire;
