//! Segotep Digital core library.
//!
//! The 34-byte USB HID report that drives Segotep Ice Moon / Digital series
//! AIO cooler displays, the decisions of the driver loop, and the arithmetic
//! and text handling that turn raw kernel, driver and sensor-engine readings
//! into display values.
pub mod config;
pub mod daemon;
pub mod device;
pub mod monitor;
pub mod protocol;
pub mod service;
pub mod text;
