//! Host-side core for loading and driving native audio plugins that follow a
//! C-style plugin ABI: a handle registry that owns one record per loaded
//! plugin, and a lifecycle state machine that decides which native calls are
//! legal in which state.
//!
//! The crate never touches the foreign code itself. An embedding layer opens
//! the dynamic library, makes the native calls, and reports their outcomes;
//! this crate decides, for every command, whether a native call may be made,
//! how the record's state changes, and in which order a teardown must issue
//! its native calls.

pub mod loader;
pub mod registry;
pub mod state;
