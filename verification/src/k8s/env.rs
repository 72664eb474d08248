//! Pod identity: who this pod is within its job.
//!
//! The orchestrator hands the identity to the pod through environment
//! variables; reading the environment is the caller's business, and
//! `from_vars` validates the raw values.
use vstd::prelude::*;
use vstd::string::{StrSliceExecFns, StringExecFns};
use vstd::utf8::encode_utf8;

use crate::strings::{
    lemma_truncate_to_bytes_fits, parse_u16, parse_u32, push_u32_dec, spec_parse_u32,
    spec_truncate_to_bytes, spec_udec,
};

verus! {

pub const POD_NAME_VAR: &'static str = "MPI_K8S_POD_NAME";

pub const POD_NAMESPACE_VAR: &'static str = "MPI_K8S_NAMESPACE";

pub const POD_IP_VAR: &'static str = "MPI_K8S_POD_IP";

pub const JOB_NAME_VAR: &'static str = "MPI_K8S_JOB_NAME";

pub const JOB_COMPLETION_INDEX_VAR: &'static str = "JOB_COMPLETION_INDEX";

pub const COORD_PORT_VAR: &'static str = "MPI_K8S_COORD_PORT";

pub const WORLD_SIZE_VAR: &'static str = "MPI_K8S_WORLD_SIZE";

/// Default coordination port.
pub const DEFAULT_COORD_PORT: u16 = 5000;

/// Pod identity extracted from the orchestrator's environment.
#[derive(Debug, Clone)]
pub struct PodIdentity {
    /// Name of this pod
    pub pod_name: String,
    /// Kubernetes namespace
    pub namespace: String,
    /// Pod IP address
    pub pod_ip: String,
    /// Name of the Job this pod belongs to
    pub job_name: String,
    /// MPI rank derived from Job completion index
    pub rank: u32,
    /// Total number of ranks (world size)
    pub world_size: u32,
    /// Port for pod-to-pod coordination
    pub coord_port: u16,
}

#[derive(Debug)]
pub enum EnvError {
    MissingVar(&'static str),
    InvalidValue(&'static str),
}

/// The port a raw `MPI_K8S_COORD_PORT` value denotes: the parsed value,
/// or the default where the variable is absent or does not parse.
pub open spec fn spec_coord_port(v: Option<String>) -> u16 {
    match v {
        Some(s) => match spec_parse_u32(s@) {
            Some(p) => if p <= u16::MAX {
                p as u16
            } else {
                DEFAULT_COORD_PORT
            },
            None => DEFAULT_COORD_PORT,
        },
        None => DEFAULT_COORD_PORT,
    }
}

impl PodIdentity {
    /// Build the pod identity from the raw values of the environment
    /// variables, validating each as the variable names require: the four
    /// name variables must be present, the completion index and world
    /// size must be present and numeric, and the coordination port
    /// defaults to 5000.
    pub fn from_vars(
        pod_name: Option<String>,
        namespace: Option<String>,
        pod_ip: Option<String>,
        job_name: Option<String>,
        completion_index: Option<String>,
        world_size: Option<String>,
        coord_port: Option<String>,
    ) -> (r: Result<PodIdentity, EnvError>)
        ensures
            pod_name is None ==> (r matches Err(EnvError::MissingVar(v)) && v@ == POD_NAME_VAR@),
            pod_name is Some && namespace is None ==> (r matches Err(EnvError::MissingVar(v)) && v@
                == POD_NAMESPACE_VAR@),
            pod_name is Some && namespace is Some && pod_ip is None ==> (r matches Err(
                EnvError::MissingVar(v),
            ) && v@ == POD_IP_VAR@),
            pod_name is Some && namespace is Some && pod_ip is Some && job_name is None ==> (
            r matches Err(EnvError::MissingVar(v)) && v@ == JOB_NAME_VAR@),
            pod_name is Some && namespace is Some && pod_ip is Some && job_name is Some
                && completion_index is None ==> (r matches Err(EnvError::MissingVar(v)) && v@
                == JOB_COMPLETION_INDEX_VAR@),
            pod_name is Some && namespace is Some && pod_ip is Some && job_name is Some && (
            completion_index matches Some(ci) && spec_parse_u32(ci@) is None) ==> (r matches Err(
                EnvError::InvalidValue(v),
            ) && v@ == JOB_COMPLETION_INDEX_VAR@),
            pod_name is Some && namespace is Some && pod_ip is Some && job_name is Some && (
            completion_index matches Some(ci) && spec_parse_u32(ci@) is Some) && world_size
                is None ==> (r matches Err(EnvError::MissingVar(v)) && v@ == WORLD_SIZE_VAR@),
            pod_name is Some && namespace is Some && pod_ip is Some && job_name is Some && (
            completion_index matches Some(ci) && spec_parse_u32(ci@) is Some) && (
            world_size matches Some(ws) && spec_parse_u32(ws@) is None) ==> (r matches Err(
                EnvError::InvalidValue(v),
            ) && v@ == WORLD_SIZE_VAR@),
            pod_name is Some && namespace is Some && pod_ip is Some && job_name is Some
                && completion_index is Some && spec_parse_u32(completion_index->0@) is Some
                && world_size is Some && spec_parse_u32(world_size->0@) is Some ==> (r matches Ok(
                id,
            ) && id.pod_name@ == pod_name->0@ && id.namespace@ == namespace->0@ && id.pod_ip@
                == pod_ip->0@ && id.job_name@ == job_name->0@ && id.rank == spec_parse_u32(
                completion_index->0@,
            )->0 && id.world_size == spec_parse_u32(world_size->0@)->0 && id.coord_port
                == spec_coord_port(coord_port)),
    {
        let pod_name = match pod_name {
            Some(v) => v,
            None => {
                return Err(EnvError::MissingVar(POD_NAME_VAR));
            },
        };
        let namespace = match namespace {
            Some(v) => v,
            None => {
                return Err(EnvError::MissingVar(POD_NAMESPACE_VAR));
            },
        };
        let pod_ip = match pod_ip {
            Some(v) => v,
            None => {
                return Err(EnvError::MissingVar(POD_IP_VAR));
            },
        };
        let job_name = match job_name {
            Some(v) => v,
            None => {
                return Err(EnvError::MissingVar(JOB_NAME_VAR));
            },
        };
        let rank: u32 = match completion_index {
            Some(v) => match parse_u32(v.as_str()) {
                Some(n) => n,
                None => {
                    return Err(EnvError::InvalidValue(JOB_COMPLETION_INDEX_VAR));
                },
            },
            None => {
                return Err(EnvError::MissingVar(JOB_COMPLETION_INDEX_VAR));
            },
        };
        let world_size: u32 = match world_size {
            Some(v) => match parse_u32(v.as_str()) {
                Some(n) => n,
                None => {
                    return Err(EnvError::InvalidValue(WORLD_SIZE_VAR));
                },
            },
            None => {
                return Err(EnvError::MissingVar(WORLD_SIZE_VAR));
            },
        };
        let coord_port: u16 = match coord_port {
            Some(v) => match parse_u16(v.as_str()) {
                Some(p) => p,
                None => DEFAULT_COORD_PORT,
            },
            None => DEFAULT_COORD_PORT,
        };
        Ok(
            PodIdentity {
                pod_name,
                namespace,
                pod_ip,
                job_name,
                rank,
                world_size,
                coord_port,
            },
        )
    }

    /// Create a pod identity for local development and testing.
    pub fn for_testing(rank: u32, world_size: u32) -> (r: Self)
        requires
            DEFAULT_COORD_PORT + rank <= u16::MAX,
        ensures
            r.pod_name@ == "test-pod-"@ + spec_udec(rank as nat),
            r.namespace@ == "default"@,
            r.pod_ip@ == "127.0.0.1"@,
            r.job_name@ == "test-job"@,
            r.rank == rank,
            r.world_size == world_size,
            r.coord_port == DEFAULT_COORD_PORT + rank,
    {
        let mut pod_name = String::from_str("test-pod-");
        push_u32_dec(&mut pod_name, rank);
        Self {
            pod_name,
            namespace: String::from_str("default"),
            pod_ip: String::from_str("127.0.0.1"),
            job_name: String::from_str("test-job"),
            rank,
            world_size,
            coord_port: DEFAULT_COORD_PORT + (rank as u16),
        }
    }

    /// The PMIx namespace string, derived from the Kubernetes namespace
    /// and the job name and held to the PMIx namespace length limit: at
    /// most 255 bytes, truncated on a character boundary.
    pub fn pmix_nspace(&self) -> (r: String)
        ensures
            r@ == spec_truncate_to_bytes(self.namespace@ + "."@ + self.job_name@, 255),
            encode_utf8(r@).len() <= 255,
    {
        let mut nspace = self.namespace.clone();
        nspace.append(".");
        nspace.append(self.job_name.as_str());
        let ghost full = nspace@;
        proof {
            lemma_truncate_to_bytes_fits(full, 255);
        }
        if nspace.as_str().as_bytes().len() <= 255 {
            proof {
                assert(encode_utf8(full).len() <= 255);
                assert(spec_truncate_to_bytes(full, 255) == full);
            }
            return nspace;
        }
        let total_chars = nspace.as_str().unicode_len();
        proof {
            assert(full.take(total_chars as int) =~= full);
        }
        let mut k: usize = total_chars;
        while k > 0
            invariant
                k <= total_chars,
                total_chars == full.len(),
                nspace@ == full,
                full == self.namespace@ + "."@ + self.job_name@,
                encode_utf8(spec_truncate_to_bytes(full, 255)).len() <= 255,
                spec_truncate_to_bytes(full, 255) == spec_truncate_to_bytes(
                    full.take(k as int),
                    255,
                ),
            decreases k,
        {
            let candidate = nspace.as_str().substring_char(0, k);
            proof {
                assert(candidate@ == full.take(k as int));
                assert(full.take(k as int).len() == k);
            }
            if candidate.as_bytes().len() <= 255 {
                proof {
                    assert(encode_utf8(full.take(k as int)).len() <= 255);
                    assert(spec_truncate_to_bytes(full.take(k as int), 255) == full.take(
                        k as int,
                    ));
                }
                return candidate.to_owned();
            }
            proof {
                assert(encode_utf8(full.take(k as int)).len() > 255);
                assert(full.take(k as int).drop_last() =~= full.take(k - 1));
                assert(spec_truncate_to_bytes(full.take(k as int), 255)
                    == spec_truncate_to_bytes(full.take(k - 1), 255));
            }
            k = k - 1;
        }
        proof {
            assert(full.take(0) =~= Seq::<char>::empty());
            assert(encode_utf8(Seq::<char>::empty()) =~= Seq::<u8>::empty());
            assert(spec_truncate_to_bytes(full.take(0), 255) =~= Seq::<char>::empty());
        }
        String::new()
    }

    /// The coordination address of this pod: its IP and coordination port.
    pub fn coord_addr(&self) -> (r: String)
        ensures
            r@ == self.pod_ip@ + ":"@ + spec_udec(self.coord_port as nat),
    {
        let mut addr = self.pod_ip.clone();
        addr.append(":");
        push_u32_dec(&mut addr, self.coord_port as u32);
        addr
    }
}

} // verus!
