//! A small collection of TCP protocol servers built atop a shared concurrent
//! serving framework: a two-stage graceful-shutdown flag, a connection
//! dispatcher with a drain protocol, and a broadcast message bus for a chat
//! relay, together with the pure request/response logic of each protocol.
//!
//! This crate holds the verified logic: the state machines, the registries,
//! the codecs and the decision functions. The surrounding process (sockets,
//! threads, signal handlers) drives these state machines from the outside.

pub mod budget_chat;
pub mod dispatch;
pub mod means_to_an_end;
pub mod prime_time;
pub mod scaffolding;
pub mod shutdown;
pub mod smoke_test;

pub use shutdown::ShutdownSignal;
