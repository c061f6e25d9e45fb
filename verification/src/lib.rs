//! The logic of a benchmark that measures how long a graphics device takes
//! to allocate memory of growing sizes.
//!
//! A run chooses a physical device ([`selector`]), sets up the device to work
//! on ([`builder`]), and makes two passes of timed allocations ([`pass`]),
//! one on host-visible and one on device-local memory. Each pass attempts the
//! sizes of a fixed schedule ([`schedule`]) in order, finds the memory type
//! for each buffer ([`resolver`]), and skips a size whose allocation fails.
//!
//! The library decides and records; it does not touch the device. The caller
//! performs each action on the device and reports what came of it.

pub mod builder;
pub mod config;
pub mod device;
pub mod flags;
pub mod outcome;
pub mod pass;
pub mod report;
pub mod resolver;
pub mod resources;
pub mod schedule;
pub mod selector;
pub mod simulate;
