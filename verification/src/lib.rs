//! Orchestration of short-lived child processes: commands, stream sinks,
//! pipelines of stages connected by pipes, and collection of their output,
//! together with the small pure collaborators the orchestrator relies on
//! (a fixed-width byte codec, line filtering, random value generation).
//!
//! All process and file I/O is performed by a driver outside this crate; the
//! library holds the data model and every decision the orchestrator makes,
//! each with a proved contract.

pub mod codec;
pub mod collect;
pub mod command;
pub mod gitlog;
pub mod lines;
pub mod login;
pub mod pipeline;
pub mod process;
pub mod redirect;
pub mod sampling;
pub mod store;
pub mod stream;
pub mod textmatch;
