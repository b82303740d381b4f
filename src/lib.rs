//! A registry of shell commands that run detached from the terminal.
//!
//! The library keeps the durable record of each delegated command and makes
//! every decision of its lifecycle (start, list, kill by pid, name or group,
//! restart, reset). Spawning processes, delivering signals and persisting the
//! table are done by the caller, which hands the outcomes back as plain values.

pub mod cli;
pub mod laws;
pub mod lifecycle;
pub mod record;
pub mod registry;
pub mod text;
