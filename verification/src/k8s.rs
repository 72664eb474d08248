//! Kubernetes-side identity and peer-pod bookkeeping: who this pod is,
//! which pods are its peers, and when the peer set is complete.  Talking
//! to the Kubernetes API is the caller's business; the decisions on the
//! data it yields live here.
pub mod env;
pub mod pods;
