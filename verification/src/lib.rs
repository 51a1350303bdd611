//! An in-memory registry of rooms and the smart devices they contain.
//!
//! Devices expose a readable and writable numeric state and render a
//! one-line description; the house owns rooms keyed by name, each room
//! owning devices keyed by the device's own name, and produces text
//! reports over its contents.

pub mod smartdevice;
pub mod smarthouse;
pub mod text;

pub use smartdevice::{DynamicSmartDevice, SmartDevice, SmartSocket, SmartThermometer};
pub use smarthouse::{SmartHouse, SmartHouseError};
pub use text::i64_text;
