//! The process-wide state of the embedded PMIx library, and the
//! translation of its server-module callbacks into plain events.
//!
//! The embedded library is process-wide: a guarded slot holds at most one
//! of client or server.  The slot itself lives with the caller; the
//! functions here are the state machine on it.  The callback functions
//! decide synchronously, from plain values, what status to return to the
//! library and which event, if any, to put on the event channel.
use vstd::prelude::*;

use crate::pmix::server::ModexCallback;
use crate::pmix::sys::{
    PmixProc, PMIX_ERR_INIT, PMIX_ERR_NOT_SUPPORTED, PMIX_INFO_REQD, PMIX_INFO_REQD_PROCESSED,
    PMIX_OPERATION_SUCCEEDED, PMIX_SUCCESS,
};

verus! {

/// What the process-wide slot holds: a PMIx client, or a PMIx server.
pub enum State {
    Client,
    Server,
}

#[derive(Debug)]
pub enum InitError {
    /// A PMIx library call failed with this status.
    PmixError(i32),
    /// The process-wide slot was already occupied.
    AlreadyInitialized,
}

/// The events a library callback can put on the event channel.
pub enum Event {
    Fence { procs: Vec<PmixProc>, data: Vec<u8>, cb: ModexCallback },
    DirectModex { proc: PmixProc, cb: ModexCallback },
}

/// What initializing a server does to the slot: it takes an empty slot,
/// and leaves an occupied one untouched.
pub open spec fn spec_server_init(slot: Option<State>) -> (Option<State>, Result<(), InitError>) {
    match slot {
        None => (Some(State::Server), Ok(())),
        Some(_) => (slot, Err(InitError::AlreadyInitialized)),
    }
}

/// What initializing a client does to the slot.
pub open spec fn spec_client_init(slot: Option<State>) -> (Option<State>, Result<(), InitError>) {
    match slot {
        None => (Some(State::Client), Ok(())),
        Some(_) => (slot, Err(InitError::AlreadyInitialized)),
    }
}

/// Whether the library is initialized: the slot is occupied.
pub fn is_initialized(slot: &Option<State>) -> (r: bool)
    ensures
        r == (slot is Some),
{
    match slot {
        Some(_) => true,
        None => false,
    }
}

/// Initialize the library as a server: succeeds exactly when no client
/// or server is live in this process, and then occupies the slot.
pub fn server_init(slot: &mut Option<State>) -> (r: Result<(), InitError>)
    ensures
        *final(slot) == spec_server_init(*old(slot)).0,
        r == spec_server_init(*old(slot)).1,
{
    match slot {
        None => {
            *slot = Some(State::Server);
            Ok(())
        },
        Some(_) => Err(InitError::AlreadyInitialized),
    }
}

/// Initialize the library as a client: succeeds exactly when no client
/// or server is live in this process, and then occupies the slot.
pub fn client_init(slot: &mut Option<State>) -> (r: Result<(), InitError>)
    ensures
        *final(slot) == spec_client_init(*old(slot)).0,
        r == spec_client_init(*old(slot)).1,
{
    match slot {
        None => {
            *slot = Some(State::Client);
            Ok(())
        },
        Some(_) => Err(InitError::AlreadyInitialized),
    }
}

/// Finalize the library: the slot is empty afterwards, whatever it held.
pub fn finalize(slot: &mut Option<State>)
    ensures
        *final(slot) is None,
{
    *slot = None;
}

/// A fresh process, or one whose server was dropped and so finalized the
/// library, reports uninitialized, and a new server init succeeds there.
pub proof fn lemma_server_reinit_after_finalize()
    ensures
        spec_server_init(None).1 is Ok,
        spec_server_init(None).0 == Some(State::Server),
{
}

/// While one server is live, a second init fails with
/// `AlreadyInitialized` and leaves the slot, and so the first server,
/// untouched.
pub proof fn lemma_second_server_init_fails(slot: Option<State>)
    requires
        slot is Some,
    ensures
        spec_server_init(slot).1 == Err::<(), InitError>(InitError::AlreadyInitialized),
        spec_server_init(slot).0 == slot,
{
}

/// An info record's "required" bit is set and not marked processed.
pub open spec fn spec_info_required_unhandled(flags: u32) -> bool {
    flags & PMIX_INFO_REQD != 0 && flags & PMIX_INFO_REQD_PROCESSED == 0
}

/// Some info record's "required" bit is set and not marked processed.
pub open spec fn spec_has_required_unhandled(flags: Seq<u32>) -> bool {
    exists|i: int| 0 <= i < flags.len() && spec_info_required_unhandled(#[trigger] flags[i])
}

fn has_required_unhandled(info_flags: &Vec<u32>) -> (r: bool)
    ensures
        r == spec_has_required_unhandled(info_flags@),
{
    let n = info_flags.len();
    let mut i: usize = 0;
    while i < n
        invariant
            n == info_flags@.len(),
            i <= n,
            forall|j: int| 0 <= j < i ==> !spec_info_required_unhandled(#[trigger] info_flags@[j]),
        decreases n - i,
    {
        let f = info_flags[i];
        if f & PMIX_INFO_REQD != 0 && f & PMIX_INFO_REQD_PROCESSED == 0 {
            assert(spec_info_required_unhandled(info_flags@[i as int]));
            return true;
        }
        i = i + 1;
    }
    false
}

/// The fence callback of the server module: refuses a fence whose info
/// carries an unhandled "required" bit; otherwise, with a live server,
/// packages the procs, the data and the continuation as a fence event and
/// accepts.  No event is emitted unless the status is success.
pub fn fence_nb(
    slot: &Option<State>,
    info_flags: &Vec<u32>,
    procs: Vec<PmixProc>,
    data: Vec<u8>,
    cb: ModexCallback,
) -> (r: (i32, Option<Event>))
    ensures
        spec_has_required_unhandled(info_flags@) ==> r.0 == PMIX_ERR_NOT_SUPPORTED && r.1 is None,
        !spec_has_required_unhandled(info_flags@) && slot == Some(State::Server) ==> r.0
            == PMIX_SUCCESS && r.1 == Some(Event::Fence { procs, data, cb }),
        !spec_has_required_unhandled(info_flags@) && slot != Some(State::Server) ==> r.0
            == PMIX_ERR_INIT && r.1 is None,
{
    if has_required_unhandled(info_flags) {
        return (PMIX_ERR_NOT_SUPPORTED, None);
    }
    match slot {
        Some(State::Server) => (PMIX_SUCCESS, Some(Event::Fence { procs, data, cb })),
        _ => (PMIX_ERR_INIT, None),
    }
}

/// The direct-modex callback of the server module: analogous to
/// `fence_nb`, with a single proc.
pub fn direct_modex(
    slot: &Option<State>,
    info_flags: &Vec<u32>,
    proc: PmixProc,
    cb: ModexCallback,
) -> (r: (i32, Option<Event>))
    ensures
        spec_has_required_unhandled(info_flags@) ==> r.0 == PMIX_ERR_NOT_SUPPORTED && r.1 is None,
        !spec_has_required_unhandled(info_flags@) && slot == Some(State::Server) ==> r.0
            == PMIX_SUCCESS && r.1 == Some(Event::DirectModex { proc, cb }),
        !spec_has_required_unhandled(info_flags@) && slot != Some(State::Server) ==> r.0
            == PMIX_ERR_INIT && r.1 is None,
{
    if has_required_unhandled(info_flags) {
        return (PMIX_ERR_NOT_SUPPORTED, None);
    }
    match slot {
        Some(State::Server) => (PMIX_SUCCESS, Some(Event::DirectModex { proc, cb })),
        _ => (PMIX_ERR_INIT, None),
    }
}

/// The client-connected callback of the server module: succeeds
/// synchronously.
pub fn client_connected(_proc: &PmixProc, _ninfo: usize) -> (r: i32)
    ensures
        r == PMIX_OPERATION_SUCCEEDED,
{
    PMIX_OPERATION_SUCCEEDED
}

/// The publish callback: publishing is not supported, and no event is
/// emitted.
pub fn publish(_proc: &PmixProc, _ninfo: usize) -> (r: (i32, Option<Event>))
    ensures
        r.0 == PMIX_ERR_NOT_SUPPORTED,
        r.1 is None,
{
    (PMIX_ERR_NOT_SUPPORTED, None)
}

/// The lookup callback: lookup is not supported, and no event is emitted.
pub fn lookup(_proc: &PmixProc, _nkeys: usize) -> (r: (i32, Option<Event>))
    ensures
        r.0 == PMIX_ERR_NOT_SUPPORTED,
        r.1 is None,
{
    (PMIX_ERR_NOT_SUPPORTED, None)
}

/// The query callback: queries are not supported, and no event is
/// emitted.
pub fn query(_nqueries: usize) -> (r: (i32, Option<Event>))
    ensures
        r.0 == PMIX_ERR_NOT_SUPPORTED,
        r.1 is None,
{
    (PMIX_ERR_NOT_SUPPORTED, None)
}

/// The server-module callback table: which entry points are installed.
pub struct ServerModule {
    pub client_connected: bool,
    pub client_finalized: bool,
    pub abort: bool,
    pub fence_nb: bool,
    pub direct_modex: bool,
    pub publish: bool,
    pub lookup: bool,
    pub unpublish: bool,
    pub spawn: bool,
    pub connect: bool,
    pub disconnect: bool,
    pub register_events: bool,
    pub deregister_events: bool,
    pub listener: bool,
    pub notify_event: bool,
    pub query: bool,
    pub tool_connected: bool,
    pub log: bool,
    pub allocate: bool,
    pub job_control: bool,
    pub monitor: bool,
    pub get_credential: bool,
    pub validate_credential: bool,
    pub iof_pull: bool,
    pub push_stdin: bool,
    pub group: bool,
    pub fabric: bool,
    pub client_connected2: bool,
    pub session_control: bool,
}

impl ServerModule {
    /// No entry point installed.
    pub open spec fn spec_empty() -> ServerModule {
        ServerModule {
            client_connected: false,
            client_finalized: false,
            abort: false,
            fence_nb: false,
            direct_modex: false,
            publish: false,
            lookup: false,
            unpublish: false,
            spawn: false,
            connect: false,
            disconnect: false,
            register_events: false,
            deregister_events: false,
            listener: false,
            notify_event: false,
            query: false,
            tool_connected: false,
            log: false,
            allocate: false,
            job_control: false,
            monitor: false,
            get_credential: false,
            validate_credential: false,
            iof_pull: false,
            push_stdin: false,
            group: false,
            fabric: false,
            client_connected2: false,
            session_control: false,
        }
    }

    fn empty() -> (r: ServerModule)
        ensures
            r == ServerModule::spec_empty(),
    {
        ServerModule {
            client_connected: false,
            client_finalized: false,
            abort: false,
            fence_nb: false,
            direct_modex: false,
            publish: false,
            lookup: false,
            unpublish: false,
            spawn: false,
            connect: false,
            disconnect: false,
            register_events: false,
            deregister_events: false,
            listener: false,
            notify_event: false,
            query: false,
            tool_connected: false,
            log: false,
            allocate: false,
            job_control: false,
            monitor: false,
            get_credential: false,
            validate_credential: false,
            iof_pull: false,
            push_stdin: false,
            group: false,
            fabric: false,
            client_connected2: false,
            session_control: false,
        }
    }
}

/// The callback table this server installs: fence, direct modex, publish,
/// lookup and query (the latter three only to refuse cleanly), and the
/// client-connected entry point; nothing else.
pub fn server_module() -> (r: ServerModule)
    ensures
        r == (ServerModule {
            fence_nb: true,
            direct_modex: true,
            publish: true,
            lookup: true,
            query: true,
            client_connected2: true,
            ..ServerModule::spec_empty()
        }),
{
    let mut m = ServerModule::empty();
    m.fence_nb = true;
    m.direct_modex = true;
    m.publish = true;
    m.lookup = true;
    m.query = true;
    m.client_connected2 = true;
    m
}

} // verus!
