//! Bootstrapping logic for a presentable rendering context: capability checks,
//! accelerator selection, swap-chain negotiation, resource lifetime ordering and
//! the window handoff between the UI thread and the worker thread.
//!
//! Every decision here works on plain values; the driver and windowing calls
//! that produce those values, and act on the results, live outside the library.

pub mod capability;
pub mod device;
pub mod diagnostics;
pub mod error;
pub mod handoff;
pub mod lifetime;
pub mod swapchain;
