//! Native backend of the Roadmap Planner desktop application.
//!
//! The backend exposes three commands to the front end: a greeting,
//! and whole-file save/load of a roadmap document.  This crate holds
//! the verified part of that surface: the exact greeting text, the
//! error messages and responses of the save/load commands, the
//! command dispatch table, and an in-memory model of the saved files
//! with the persistence laws proved over it.  The process-level I/O
//! itself lives outside the library and hands its outcomes in as
//! plain values.

pub mod adapter;
pub mod commands;
pub mod greeting;
pub mod store;
