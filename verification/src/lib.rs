//! Cloud-side control plane of a rule-script engine for an edge fleet.
//!
//! The crate holds the coordination engine: the reflector (an in-memory
//! mirror of device and script resources with a device-to-script selector
//! index), the scheduler (which resolves a script trigger into a run
//! command), the trigger sources (topic parsing, webhook, change-log
//! events), and the executor session manager (the per-stream protocol
//! state machine and its unary callbacks).

pub mod changelog;
pub mod command;
pub mod device;
pub mod executor;
pub mod id;
pub mod idmap;
pub mod index;
pub mod mqtt;
pub mod queue;
pub mod reflector;
pub mod scheduler;
pub mod script;
pub mod session;
pub mod strmap;
pub mod supervisor;
pub mod tables;
pub mod watch;
pub mod webhook;
