//! The PMIx bridge: the process-wide state of the embedded PMIx library,
//! the server-module callback table, and the translation of callbacks into
//! plain events, modeled over plain values.
pub mod client;
pub mod env;
pub mod globals;
pub mod server;
pub mod sys;
pub mod value;
