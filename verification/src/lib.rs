//! Decision and execution-safety core of an automated spot-trading engine.

pub mod address;
pub mod amount;
pub mod clock;
pub mod config;
pub mod decimal;
pub mod engine;
pub mod text;
