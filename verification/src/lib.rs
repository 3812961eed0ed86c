//! Control logic for Raspberry Pi boards that are reached through a serial
//! console and a switchable power supply.

pub mod config;
pub mod console;
pub mod console_laws;
pub mod doctor;
pub mod effects;
pub mod error;
pub mod execution;
pub mod history_laws;
pub mod lease;
pub mod mcp;
pub mod observation;
pub mod operations;
pub mod plan_laws;
pub mod policy;
pub mod power;
pub mod power_laws;
pub mod procedure;
pub mod protocol;
pub mod registry;
pub mod rule_laws;
pub mod run_laws;
pub mod serial;
pub mod state;
pub mod state_laws;
pub mod text;
pub mod text_laws;
pub mod tool_laws;

pub use config::{BoardProfile, Config};
pub use error::{Error, ErrorCode};
pub use registry::BoardRegistry;
