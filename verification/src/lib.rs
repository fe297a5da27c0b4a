//! Verified logic for two micro:bit exercises: an LED perimeter animation and
//! a serial console that answers sensor queries.

pub mod animation;
pub mod buffer;
pub mod command;
pub mod sensor;
pub mod text;
