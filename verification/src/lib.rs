//! A line-oriented chat room core, together with the small request handlers
//! of a few sibling line-protocol servers.
//!
//! The chat core is a registration state machine, a membership registry keyed
//! by session identifier, and a broadcast planner: every decision the server
//! makes is a function here, with a contract. Sockets, threads and the lock
//! that serialises registry access live outside the library; callers hand in
//! the lines they read and carry out the write plans they get back.

pub mod messages;
pub mod registry;
pub mod registration;
pub mod session;
pub mod laws;
pub mod primality;
pub mod kv_store;
pub mod price_history;
