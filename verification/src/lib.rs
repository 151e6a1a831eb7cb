//! Core logic of a USB macro-pad firmware: framing of the vendor-channel
//! byte stream, resynchronizing reassembly of inbound frames, the versioned
//! configuration protocol with its merge semantics, and the actuation
//! pipeline that turns button presses into USB HID reports.

pub mod actor;
pub mod config;
pub mod events;
pub mod frame;
pub mod keys;
pub mod mapper;
pub mod protocol;
pub mod reports;
pub mod rx;
