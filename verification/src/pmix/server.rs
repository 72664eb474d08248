//! The PMIx server bridge: the server handle, the callback wrappers the
//! library's continuations become, and the translation of server-module
//! callbacks into `PmixEvent`s.
//!
//! A continuation of the embedded library is modeled as a token; invoking
//! it is modeled by a `CallbackInvocation`, which the caller carries out.
//! A callback wrapper is consumed by value when it is completed, so each
//! continuation is invoked at most once.
use vstd::prelude::*;
use vstd::utf8::{encode_utf8, valid_utf8};

use crate::coordinator::FenceRequest;
use crate::kv::KvStore;
use crate::pmix::globals::{ServerModule, State};
use crate::pmix::sys::{
    nspace_to_string, spec_nul_prefix, PmixProc, PMIX_ERR_INIT, PMIX_SUCCESS,
};
use crate::pmix::value::{
    is_namespace_descriptor, namespace_descriptor, InfoRecord, InfoValue,
    PMIX_SERVER_SYSTEM_SUPPORT, PMIX_SERVER_TMPDIR, PMIX_SYSTEM_TMPDIR,
};

verus! {

/// Callback wrapper for fence completion: stands for the library's
/// continuation, identified by a token the caller chose.
pub struct FenceCallback {
    token: u64,
}

/// Callback wrapper for direct modex.
pub struct ModexCallback {
    token: u64,
}

/// One invocation of a library continuation: the token of the callback
/// invoked, the status, and the result buffer handed over.
pub struct CallbackInvocation {
    pub token: u64,
    pub status: i32,
    pub data: Vec<u8>,
}

impl FenceCallback {
    pub closed spec fn spec_token(&self) -> u64 {
        self.token
    }

    pub fn new(token: u64) -> (r: Self)
        ensures
            r.spec_token() == token,
    {
        Self { token }
    }

    /// Invoke the continuation: consumes the callback, so it is completed
    /// exactly once.
    pub fn complete(self, status: i32, data: Vec<u8>) -> (r: CallbackInvocation)
        ensures
            r.token == self.spec_token(),
            r.status == status,
            r.data == data,
    {
        CallbackInvocation { token: self.token, status, data }
    }
}

impl ModexCallback {
    pub closed spec fn spec_token(&self) -> u64 {
        self.token
    }

    pub fn new(token: u64) -> (r: Self)
        ensures
            r.spec_token() == token,
    {
        Self { token }
    }

    /// Invoke the continuation: consumes the callback, so it is completed
    /// exactly once.
    pub fn complete(self, status: i32, data: Vec<u8>) -> (r: CallbackInvocation)
        ensures
            r.token == self.spec_token(),
            r.status == status,
            r.data == data,
    {
        CallbackInvocation { token: self.token, status, data }
    }
}

/// Events that the PMIx server sends to the main coordinator.
pub enum PmixEvent {
    ClientConnected { nspace: String, rank: u32 },
    ClientFinalized { nspace: String, rank: u32 },
    FenceRequest { request: FenceRequest, data: Vec<u8>, callback: FenceCallback },
    DirectModexRequest { nspace: String, rank: u32, callback: ModexCallback },
    Abort { nspace: String, rank: u32, status: i32, message: String },
}

/// PMIx error type.
#[derive(Debug)]
pub enum PmixError {
    InitFailed(i32),
    RegisterFailed(i32),
    SetupFailed(i32),
    InvalidString,
    AlreadyInitialized,
}

/// One expected client, as registered with the library: its process
/// identity and the credentials under which its connection is admitted.
pub struct ClientRecord {
    pub nspace: String,
    pub rank: u32,
    pub uid: u32,
    pub gid: u32,
}

/// PMIx server wrapper: the callback table it installed, the server
/// options it was initialized with, and what it has registered.
pub struct PmixServer {
    /// The installed server-module callback table.
    pub module: ServerModule,
    /// The server options submitted at initialization.
    pub init_infos: Vec<InfoRecord>,
    /// Registered namespaces: name and proc count.
    pub nspaces: Vec<(String, u32)>,
    /// Registered clients.
    pub clients: Vec<ClientRecord>,
}

/// The callback table `PmixServer::new` installs: client connect and
/// finalize, abort, fence and direct modex; everything else is left out
/// so the library refuses it.
pub open spec fn spec_server_cb_table() -> ServerModule {
    ServerModule {
        client_connected: true,
        client_finalized: true,
        abort: true,
        fence_nb: true,
        direct_modex: true,
        ..ServerModule::spec_empty()
    }
}

impl PmixServer {
    /// Initialize the PMIx server: occupies the process-wide slot, or
    /// fails with `AlreadyInitialized` and leaves the slot untouched.
    /// The server options name `tmpdir` as the server and system
    /// temporary directory, with system support on.
    pub fn new(slot: &mut Option<State>, tmpdir: &str) -> (r: Result<PmixServer, PmixError>)
        ensures
            *old(slot) is Some ==> (r matches Err(PmixError::AlreadyInitialized) && *final(slot)
                == *old(slot)),
            *old(slot) is None ==> *final(slot) == Some(State::Server) && (r matches Ok(s)
                && s.module == spec_server_cb_table() && s.nspaces@.len() == 0 && s.clients@.len()
                == 0 && s.init_infos@.len() == 3 && (s.init_infos@[0].key@ == PMIX_SERVER_TMPDIR@
                && (s.init_infos@[0].value matches InfoValue::Str(t) && t@ == tmpdir@)) && (
            s.init_infos@[1].key@ == PMIX_SYSTEM_TMPDIR@ && (s.init_infos@[1].value matches
                InfoValue::Str(t) && t@ == tmpdir@)) && (s.init_infos@[2].key@
                == PMIX_SERVER_SYSTEM_SUPPORT@ && s.init_infos@[2].value == InfoValue::Bool(true))),
    {
        match slot {
            Some(_) => Err(PmixError::AlreadyInitialized),
            None => {
                *slot = Some(State::Server);
                let mut module = crate::pmix::globals::server_module();
                module.publish = false;
                module.lookup = false;
                module.query = false;
                module.client_connected2 = false;
                module.client_connected = true;
                module.client_finalized = true;
                module.abort = true;
                let mut init_infos: Vec<InfoRecord> = Vec::new();
                init_infos.push(
                    InfoRecord::new(
                        String::from_str(PMIX_SERVER_TMPDIR),
                        InfoValue::Str(tmpdir.to_owned()),
                    ),
                );
                init_infos.push(
                    InfoRecord::new(
                        String::from_str(PMIX_SYSTEM_TMPDIR),
                        InfoValue::Str(tmpdir.to_owned()),
                    ),
                );
                init_infos.push(
                    InfoRecord::new(
                        String::from_str(PMIX_SERVER_SYSTEM_SUPPORT),
                        InfoValue::Bool(true),
                    ),
                );
                Ok(PmixServer { module, init_infos, nspaces: Vec::new(), clients: Vec::new() })
            },
        }
    }

    /// Register a namespace: records it under the job size
    /// `hostnames.len() * local_procs_per_node` and yields the namespace
    /// descriptor submitted to the library — the global job-size record,
    /// one per-node info array per host, and one per-proc info array per
    /// global rank.
    pub fn register_nspace(
        &mut self,
        nspace: &str,
        hostnames: &Vec<String>,
        local_procs_per_node: u16,
    ) -> (r: Result<Vec<InfoRecord>, PmixError>)
        requires
            local_procs_per_node > 0,
            hostnames@.len() * local_procs_per_node <= u32::MAX,
        ensures
            r matches Ok(infos) && is_namespace_descriptor(
                infos@,
                hostnames@,
                local_procs_per_node,
            ),
            final(self).nspaces@.len() == old(self).nspaces@.len() + 1,
            final(self).nspaces@.drop_last() == old(self).nspaces@,
            final(self).nspaces@.last().0@ == nspace@,
            final(self).nspaces@.last().1 == hostnames@.len() * local_procs_per_node,
            final(self).clients == old(self).clients,
            final(self).module == old(self).module,
            final(self).init_infos == old(self).init_infos,
    {
        let infos = namespace_descriptor(hostnames, local_procs_per_node);
        let num_procs: u32 = (hostnames.len() * (local_procs_per_node as usize)) as u32;
        self.nspaces.push((nspace.to_owned(), num_procs));
        Ok(infos)
    }

    /// Register a client with the PMIx server: records the expected
    /// client under its namespace and rank, with the effective UID and
    /// GID under which the library admits its connection.
    pub fn register_client(&mut self, nspace: &str, rank: u32, uid: u32, gid: u32) -> (r: Result<
        (),
        PmixError,
    >)
        ensures
            r is Ok,
            final(self).clients@.len() == old(self).clients@.len() + 1,
            final(self).clients@.drop_last() == old(self).clients@,
            final(self).clients@.last().nspace@ == nspace@,
            final(self).clients@.last().rank == rank,
            final(self).clients@.last().uid == uid,
            final(self).clients@.last().gid == gid,
            final(self).nspaces == old(self).nspaces,
            final(self).module == old(self).module,
            final(self).init_infos == old(self).init_infos,
    {
        self.clients.push(ClientRecord { nspace: nspace.to_owned(), rank, uid, gid });
        Ok(())
    }

    /// Compute the environment a forked client inherits: each raw
    /// `NAME=value` entry the library yields becomes a pair; entries
    /// without `=` are dropped.
    pub fn setup_fork(&self, _nspace: &str, _rank: u32, raw_env: &Vec<String>) -> (r: Result<
        Vec<(String, String)>,
        PmixError,
    >)
        ensures
            r matches Ok(pairs) && pairs.deep_view() == crate::pmix::env::spec_env_pairs(
                raw_env.deep_view(),
            ),
    {
        Ok(crate::pmix::env::parse_env_entries(raw_env))
    }
}

/// The name of a proc's namespace holds, when the NUL-terminated bytes
/// are valid UTF-8.
pub open spec fn nspace_names(s: String, proc: PmixProc) -> bool {
    valid_utf8(spec_nul_prefix(proc.nspace@)) ==> encode_utf8(s@) == spec_nul_prefix(proc.nspace@)
}

/// The client-connected callback: with a live server, accepts and
/// reports the client as an event; without one, refuses.
pub fn client_connected_cb(slot: &Option<State>, proc: &PmixProc) -> (r: (i32, Option<PmixEvent>))
    ensures
        slot is None ==> r.0 == PMIX_ERR_INIT && r.1 is None,
        slot is Some ==> r.0 == PMIX_SUCCESS && (r.1 matches Some(PmixEvent::ClientConnected {
            nspace,
            rank,
        }) && rank == proc.rank && nspace_names(nspace, *proc)),
{
    match slot {
        None => (PMIX_ERR_INIT, None),
        Some(_) => {
            let nspace = nspace_to_string(&proc.nspace);
            (PMIX_SUCCESS, Some(PmixEvent::ClientConnected { nspace, rank: proc.rank }))
        },
    }
}

/// The client-finalized callback: like `client_connected_cb`.
pub fn client_finalized_cb(slot: &Option<State>, proc: &PmixProc) -> (r: (i32, Option<PmixEvent>))
    ensures
        slot is None ==> r.0 == PMIX_ERR_INIT && r.1 is None,
        slot is Some ==> r.0 == PMIX_SUCCESS && (r.1 matches Some(PmixEvent::ClientFinalized {
            nspace,
            rank,
        }) && rank == proc.rank && nspace_names(nspace, *proc)),
{
    match slot {
        None => (PMIX_ERR_INIT, None),
        Some(_) => {
            let nspace = nspace_to_string(&proc.nspace);
            (PMIX_SUCCESS, Some(PmixEvent::ClientFinalized { nspace, rank: proc.rank }))
        },
    }
}

/// The abort callback: reports the aborting client and its message as an
/// event.
pub fn abort_cb(slot: &Option<State>, proc: &PmixProc, status: i32, message: String) -> (r: (
    i32,
    Option<PmixEvent>,
))
    ensures
        slot is None ==> r.0 == PMIX_ERR_INIT && r.1 is None,
        slot is Some ==> r.0 == PMIX_SUCCESS && (r.1 matches Some(PmixEvent::Abort {
            nspace,
            rank,
            status: st,
            message: m,
        }) && rank == proc.rank && st == status && m == message && nspace_names(nspace, *proc)),
{
    match slot {
        None => (PMIX_ERR_INIT, None),
        Some(_) => {
            let nspace = nspace_to_string(&proc.nspace);
            (
                PMIX_SUCCESS,
                Some(PmixEvent::Abort { nspace, rank: proc.rank, status, message }),
            )
        },
    }
}

/// The fence callback: copies the participating procs into an owned
/// fence request and forwards it, the data and the continuation as one
/// event; returns success immediately, completion comes later through
/// the continuation.
pub fn fence_nb_cb(
    slot: &Option<State>,
    procs: &Vec<PmixProc>,
    data: Vec<u8>,
    cb: FenceCallback,
) -> (r: (i32, Option<PmixEvent>))
    ensures
        slot is None ==> r.0 == PMIX_ERR_INIT && r.1 is None,
        slot is Some ==> r.0 == PMIX_SUCCESS && (r.1 matches Some(PmixEvent::FenceRequest {
            request,
            data: d,
            callback,
        }) && d == data && callback == cb && request.participants@.len() == procs@.len() && (
        forall|i: int|
            0 <= i < procs@.len() ==> (#[trigger] request.participants@[i]).1 == procs@[i].rank
                && nspace_names(request.participants@[i].0, procs@[i]))),
{
    match slot {
        None => (PMIX_ERR_INIT, None),
        Some(_) => {
            let n = procs.len();
            let mut participants: Vec<(String, u32)> = Vec::new();
            let mut i: usize = 0;
            while i < n
                invariant
                    n == procs@.len(),
                    i <= n,
                    participants@.len() == i,
                    forall|j: int|
                        0 <= j < i ==> (#[trigger] participants@[j]).1 == procs@[j].rank
                            && nspace_names(participants@[j].0, procs@[j]),
                decreases n - i,
            {
                let nspace = nspace_to_string(&procs[i].nspace);
                participants.push((nspace, procs[i].rank));
                i = i + 1;
            }
            let request = FenceRequest { participants };
            (
                PMIX_SUCCESS,
                Some(PmixEvent::FenceRequest { request, data, callback: cb }),
            )
        },
    }
}

/// The direct-modex callback: a rank whose blob is already in the local
/// store is answered at once from it, and the coordinator is never
/// involved; otherwise the request is forwarded as an event.
pub fn direct_modex_cb(
    slot: &Option<State>,
    nspace: &str,
    rank: u32,
    kv: &KvStore,
    cb: ModexCallback,
) -> (r: (i32, Option<PmixEvent>, Option<CallbackInvocation>))
    ensures
        slot is None ==> r.0 == PMIX_ERR_INIT && r.1 is None && r.2 is None,
        slot is Some && kv.modex().contains_key((nspace@, rank)) ==> r.0 == PMIX_SUCCESS && r.1
            is None && (r.2 matches Some(inv) && inv.token == cb.spec_token() && inv.status
            == PMIX_SUCCESS && inv.data@ == kv.modex()[(nspace@, rank)]),
        slot is Some && !kv.modex().contains_key((nspace@, rank)) ==> r.0 == PMIX_SUCCESS && r.2
            is None && (r.1 matches Some(PmixEvent::DirectModexRequest {
            nspace: n,
            rank: rk,
            callback,
        }) && n@ == nspace@ && rk == rank && callback == cb),
{
    match slot {
        None => (PMIX_ERR_INIT, None, None),
        Some(_) => {
            match kv.get_modex_data(nspace, rank) {
                Some(data) => {
                    let inv = cb.complete(PMIX_SUCCESS, data);
                    (PMIX_SUCCESS, None, Some(inv))
                },
                None => {
                    (
                        PMIX_SUCCESS,
                        Some(
                            PmixEvent::DirectModexRequest {
                                nspace: nspace.to_owned(),
                                rank,
                                callback: cb,
                            },
                        ),
                        None,
                    )
                },
            }
        },
    }
}

} // verus!
