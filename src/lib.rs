//! Window snapshots and focus-transition detection for a one-shot desktop
//! automation: once focus leaves a chosen target window, a right click is
//! posted to that target.
//!
//! The library holds the logic only. The operating system is reached by the
//! caller, which hands over the raw answers of its queries (`WindowQuery`)
//! and performs the actions the detector asks for (`focus::Action`).

pub mod focus;
pub mod position;
pub mod text;
pub mod window;
