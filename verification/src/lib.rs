//! Futures over the completion events of a firmware host.
//!
//! The host finishes an asynchronous operation by calling back once. This
//! crate turns that callback into a future ([`event`]), schedules the tasks
//! that await such futures ([`executor`], over the model in [`scheduler`]),
//! and runs one datagram transmit or receive through a completion token
//! ([`udp4`]). The library makes no call into the host: whoever drives it
//! makes the calls and brings the answers.

pub mod event;
pub mod executor;
pub mod scheduler;
pub mod status;
pub mod task;
pub mod udp4;
