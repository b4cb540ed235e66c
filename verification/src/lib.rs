//! A minimal TCP echo service, verified.
//!
//! The service has two halves. A listener accepts inbound connections and
//! hands each one to an independent worker; the worker reads bytes from its
//! connection and writes them straight back until the peer closes or an I/O
//! error ends the session. All of the decisions those halves make — what to
//! write back after a read, when a session is over, which accepted
//! connections get a worker — live here as verified functions over plain
//! values. The process that binds the socket, blocks on `read`, and spawns
//! the threads feeds those functions with what the OS delivered and performs
//! the actions they return.

pub mod chunks;
pub mod handler;
pub mod laws;
pub mod worker;
