//! Capability-gated mediation of a shared I2C bus for sandboxed guests.
//!
//! Guest code runs inside a WebAssembly execution engine and cannot touch
//! hardware directly; it calls host-side boundary operations instead. Every
//! such call must identify the calling module instance, resolve its prior
//! authorization to a handle, check the requested operation against that
//! handle's permissions, and translate guest-relative buffer offsets into
//! bounds-checked locations before any memory or device access.
//!
//! This crate holds the verified core of that host: the handle registry,
//! the permission model, a bounds-checked view of guest linear memory, a
//! device stub that logs bus transactions, and the three boundary
//! operations themselves. The execution engine and the physical bus are
//! collaborators outside the crate; their answers enter the boundary
//! operations as plain values.

pub mod device;
pub mod errors;
pub mod guest_mem;
pub mod mediation;
pub mod registry;
