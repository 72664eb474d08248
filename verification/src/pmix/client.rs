//! The PMIx client handle: the process identity the library assigned,
//! and the targets of attribute queries.
use vstd::prelude::*;
use vstd::utf8::{encode_utf8, valid_utf8};

use crate::pmix::globals::{spec_client_init, InitError, State};
use crate::pmix::sys::{nspace_to_string, spec_nul_prefix, PmixProc, PMIX_RANK_WILDCARD};
use crate::pmix::value::{InfoRecord, InfoValue};

verus! {

pub const PMIX_SESSION_INFO: &'static str = "pmix.ssn.info";

pub const PMIX_SESSION_ID: &'static str = "pmix.session.id";

pub const PMIX_JOB_INFO: &'static str = "pmix.job.info";

/// A PMIx client: the identity the library assigned at initialization.
pub struct Client {
    proc: PmixProc,
}

/// A session, by its id.
#[derive(Clone, Copy, Debug)]
pub struct Session(pub u32);

/// A job: a namespace, optionally within a session.
#[derive(Clone, Copy, Debug)]
pub struct Job(pub [u8; 256], pub Option<Session>);

/// A proc: a rank, optionally within a job.
#[derive(Clone, Copy, Debug)]
pub struct Proc(pub u32, pub Option<Job>);

/// An attribute query: the proc it targets, the directives, and the key.
pub struct GetQuery {
    /// The proc queried, or none for the local process.
    pub proc: Option<PmixProc>,
    /// The info directives of the query.
    pub infos: Vec<InfoRecord>,
}

impl Client {
    /// The identity this client holds.
    pub closed spec fn spec_proc(&self) -> PmixProc {
        self.proc
    }

    /// Initialize the library as a client: succeeds exactly when no
    /// client or server is live in this process.  The identity `proc` is
    /// what the library reported for this process.
    pub fn init(slot: &mut Option<State>, proc: PmixProc) -> (r: Result<Client, InitError>)
        ensures
            *final(slot) == spec_client_init(*old(slot)).0,
            *old(slot) is None ==> (r matches Ok(c) && c.spec_proc() == proc),
            *old(slot) is Some ==> (r matches Err(e) && e == InitError::AlreadyInitialized),
    {
        match crate::pmix::globals::client_init(slot) {
            Ok(_) => Ok(Client { proc }),
            Err(e) => Err(e),
        }
    }

    /// This client's rank.
    pub fn rank(&self) -> (r: u32)
        ensures
            r == self.spec_proc().rank,
    {
        self.proc.rank
    }

    /// This client's namespace name: the NUL-terminated bytes of its
    /// identity, decoded as UTF-8.
    pub fn namespace(&self) -> (r: String)
        ensures
            valid_utf8(spec_nul_prefix(self.spec_proc().nspace@)) ==> encode_utf8(r@)
                == spec_nul_prefix(self.spec_proc().nspace@),
    {
        nspace_to_string(&self.proc.nspace)
    }

    /// The target of a session-scoped query: no proc, the session-info
    /// directive, and the session id where one is named.
    pub fn get_session(&self, session: Option<Session>) -> (r: GetQuery)
        ensures
            r.proc is None,
            r.infos@.len() == (if session is Some {
                2int
            } else {
                1int
            }),
            r.infos@[0].key@ == PMIX_SESSION_INFO@,
            r.infos@[0].value == InfoValue::Bool(true),
            session matches Some(s) ==> r.infos@[1].key@ == PMIX_SESSION_ID@ && r.infos@[1].value
                == InfoValue::U32(s.0),
    {
        let mut infos: Vec<InfoRecord> = Vec::new();
        infos.push(InfoRecord::new(String::from_str(PMIX_SESSION_INFO), InfoValue::Bool(true)));
        match session {
            Some(Session(id)) => {
                infos.push(InfoRecord::new(String::from_str(PMIX_SESSION_ID), InfoValue::U32(id)));
            },
            None => {},
        }
        GetQuery { proc: None, infos }
    }

    /// The target of a job-scoped query: the wildcard rank of the named
    /// job's namespace (or this client's own), the job-info directive,
    /// and the session id where the job names one.
    pub fn get_job(&self, job: Option<Job>) -> (r: GetQuery)
        ensures
            r.proc matches Some(p) && p.rank == PMIX_RANK_WILDCARD && p.nspace@ == (match job {
                Some(j) => j.0@,
                None => self.spec_proc().nspace@,
            }),
            r.infos@[0].key@ == PMIX_JOB_INFO@,
            r.infos@[0].value == InfoValue::Bool(true),
            r.infos@.len() == (match job {
                Some(j) => if j.1 is Some {
                    2int
                } else {
                    1int
                },
                None => 1int,
            }),
            (match job {
                Some(j) => match j.1 {
                    Some(s) => r.infos@[1].key@ == PMIX_SESSION_ID@ && r.infos@[1].value
                        == InfoValue::U32(s.0),
                    None => true,
                },
                None => true,
            }),
    {
        let mut infos: Vec<InfoRecord> = Vec::new();
        infos.push(InfoRecord::new(String::from_str(PMIX_JOB_INFO), InfoValue::Bool(true)));
        let nspace = match &job {
            Some(j) => j.0,
            None => self.proc.nspace,
        };
        match &job {
            Some(Job(_, Some(Session(id)))) => {
                infos.push(
                    InfoRecord::new(String::from_str(PMIX_SESSION_ID), InfoValue::U32(*id)),
                );
            },
            _ => {},
        }
        GetQuery { proc: Some(PmixProc { nspace, rank: PMIX_RANK_WILDCARD }), infos }
    }

    /// The target of a proc-scoped query: the named proc (or this client
    /// itself), and the session id where the proc's job names one.
    pub fn get_proc(&self, proc: Option<Proc>) -> (r: GetQuery)
        ensures
            r.proc matches Some(p) && p.rank == (match proc {
                Some(q) => q.0,
                None => self.spec_proc().rank,
            }) && p.nspace@ == (match proc {
                Some(q) => match q.1 {
                    Some(j) => j.0@,
                    None => self.spec_proc().nspace@,
                },
                None => self.spec_proc().nspace@,
            }),
            r.infos@.len() == (match proc {
                Some(q) => match q.1 {
                    Some(j) => if j.1 is Some {
                        1int
                    } else {
                        0int
                    },
                    None => 0int,
                },
                None => 0int,
            }),
            (match proc {
                Some(q) => match q.1 {
                    Some(j) => match j.1 {
                        Some(s) => r.infos@[0].key@ == PMIX_SESSION_ID@ && r.infos@[0].value
                            == InfoValue::U32(s.0),
                        None => true,
                    },
                    None => true,
                },
                None => true,
            }),
    {
        let mut infos: Vec<InfoRecord> = Vec::new();
        match &proc {
            Some(Proc(_, Some(Job(_, Some(Session(id)))))) => {
                infos.push(
                    InfoRecord::new(String::from_str(PMIX_SESSION_ID), InfoValue::U32(*id)),
                );
            },
            _ => {},
        }
        let nspace = match &proc {
            Some(q) => match &q.1 {
                Some(j) => j.0,
                None => self.proc.nspace,
            },
            None => self.proc.nspace,
        };
        let rank = match &proc {
            Some(q) => q.0,
            None => self.proc.rank,
        };
        GetQuery { proc: Some(PmixProc { nspace, rank }), infos }
    }
}

} // verus!
