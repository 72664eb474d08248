//! A PMIx wire-up server library for MPI jobs running as container pods.
//!
//! Each pod runs one server that hosts a local PMIx endpoint, discovers its
//! peers, and relays PMIx fence (all-gather) and direct modex (point-to-point
//! key fetch) operations between pods over plain TCP.  This crate holds the
//! verified core: wire codecs, the fence and modex coordination logic, the
//! PMIx bridge state machine, and the key-value store for modex blobs.
pub mod cli;
pub mod coordinator;
pub mod fence;
pub mod k8s;
pub mod kv;
pub mod mock;
pub mod modex;
pub mod peer;
pub mod pmix;
pub mod protocol;
pub mod strings;
pub mod wire;
