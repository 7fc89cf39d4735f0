//! A shared counter pushed to every connected client.
//!
//! The library holds the rules of the service: the decimal wire and storage
//! format, how a client message turns into a mutation, the shared atomic
//! counter, the per-connection session as a state machine, and the seeding
//! and snapshotting of the stored value. Transport, timers and storage are
//! left to the program around it.

pub mod counter;
pub mod decimal;
pub mod gateway;
pub mod persist;
pub mod session;
