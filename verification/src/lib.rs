//! A USB DFU bootloader core for a small ARM microcontroller: the DFU
//! protocol state machine, the flash-programming engine, and the persistent
//! boot-flags store, verified over an explicit model of the flash controller.
//!
//! Board bring-up, the USB device stack and the jump-to-application sequence
//! are external collaborators; they live outside this library and drive it
//! through plain values.

pub mod boot;
pub mod config;
pub mod dfu;
pub mod flags;
pub mod flash;
pub mod laws;
