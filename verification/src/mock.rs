//! The argument shapes of the test harness binary, which runs either a
//! mock client (a bare MPI or PMIx program) or a set of wire-up servers
//! around it.
use vstd::prelude::*;

verus! {

/// Arguments of the client subcommand.
#[derive(Debug)]
pub struct ClientArgs {
    pub command: ClientCommand,
}

/// What the mock client runs.
#[derive(Debug)]
pub enum ClientCommand {
    /// An MPI all-gather over this many ranks.
    Mpi { expected_size: i32 },
    /// A bare PMIx client that checks its job attributes.
    Pmix {},
}

/// Arguments of the server subcommand.
#[derive(Debug)]
pub struct ServerArgs {
    pub tempdir: String,
    pub node_rank: u32,
    pub nnodes: u32,
    pub nprocs: u16,
    pub command: Vec<String>,
}

} // verus!
