//! Keeps a set of actuated zones in step with the desired state that a remote
//! device shadow publishes for each of them.
//!
//! The crate performs no I/O. The controller is a state machine: it is handed
//! the outcome of the action it asked for last and answers with the next
//! action, which a driver performs against the hardware and the transport.

pub mod action;
pub mod controller;
pub mod iot_client;
pub mod script;
pub mod settings;
pub mod shadow;
pub mod topic;
pub mod zone;
