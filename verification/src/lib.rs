//! Verified core of a load generator for a replicated key-value service.
//!
//! The crate decides *what* the generator does: which requests are built,
//! how replies are decoded, which loops exist, when new ones are due and
//! which replica each one talks to. Performing the calls, sleeping and
//! serving metrics is left to the program built around it.
//!
//! - [`key`]: the key space and the numerals that name its keys
//! - [`codec`]: requests and replies of the two operations
//! - [`engine`]: what a request loop sends and what it logs
//! - [`timeline`]: the two timers of the ramp and the instants at which
//!   they fire
//! - [`fleet`]: the model of the loops of a run, and the laws of its growth
//! - [`scheduler`]: the registry and the clock that drive the ramp
//! - [`connection`]: the replicas of the cluster and the check of their
//!   addresses
//! - [`startup`]: from the settings of a run to a fleet that may start

pub mod codec;
pub mod connection;
pub mod engine;
pub mod fleet;
pub mod key;
pub mod scheduler;
pub mod startup;
pub mod timeline;
