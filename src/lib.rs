//! Process discovery and handle lifetime management.
//!
//! The operating system is reached only by the caller: this library takes the
//! outcome of each OS request (a snapshot of running processes, the raw handle
//! that an open request returned, the result of a release request) as a plain
//! value, and decides from it which processes match, which handles are kept and
//! when a handle counts as released.
pub mod enumerate;
pub mod process;
pub mod text;
