//! A blocking channel from many senders to one receiver.
//!
//! `model` describes a channel as plain sequences and states the laws that hold
//! of it; `state` is the shared state behind the lock, with every operation
//! proved against the model; `sync` holds the lock and the condition that the
//! handles wait on; `handle` is the `Sender`, the `Receiver` and `channel`.
//!
//! Two small helpers for programs that use the channel stand beside it:
//! `partition` cuts a list into parts and sums them with care for overflow,
//! and `route` picks the page that a request line asks for and composes the
//! answer.
pub mod handle;
pub mod model;
pub mod partition;
pub mod route;
pub mod state;
pub mod sync;

pub use crate::handle::{channel, Receiver, Sender};
