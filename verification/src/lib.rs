//! Search coordination for vanity addresses: scoring-mode encoding, the
//! per-device lifecycle, discovery bookkeeping and private-key recovery.
//!
//! The library decides; the program around it talks to the devices. Every
//! step that touches a device is handed out as a command and every answer of
//! a device is handed back in as a plain value.

pub mod commands;
pub mod compute_unit;
pub mod config;
pub mod dispatcher;
pub mod speed_meter;
pub mod text;
pub mod types;
pub mod utils;
