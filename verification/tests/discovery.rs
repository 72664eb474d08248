use std::collections::HashSet;

use mpi_k8s::cli::{Cli, CliError};
use mpi_k8s::k8s::env::{EnvError, PodIdentity, DEFAULT_COORD_PORT};
use mpi_k8s::k8s::pods::{
    pod_to_peer, sort_peers_by_rank, PeerPod, PodEvent, PodRecord, ReadyPods,
};
use mpi_k8s::peer::dir::DirectoryPeers;
use mpi_k8s::peer::k8s::KubernetesPeers;
use mpi_k8s::peer::DirPeerDiscovery;
use mpi_k8s::strings::{parse_u32, u32_to_string};

fn argv(v: &[&str]) -> Vec<String> {
    v.iter().map(|s| s.to_string()).collect()
}

#[test]
fn test_args() {
    assert!(Cli::try_parse_from(&argv(&["pmi-k8s", "--nproc=2"])).is_err());
    let cli = Cli::try_parse_from(&argv(&["pmi-k8s", "--nproc=2", "foo"])).unwrap();
    assert_eq!(cli.nproc, 2);
    assert_eq!(cli.command, "foo");
    assert!(cli.args.is_empty());

    let cli = Cli::try_parse_from(&argv(&["pmi-k8s", "--nproc=2", "foo", "--", "bar", "--baz"]))
        .unwrap();
    assert_eq!(cli.nproc, 2);
    assert_eq!(cli.command, "foo");
    assert_eq!(cli.args, ["bar", "--baz"]);
}

#[test]
fn test_args_errors() {
    assert!(matches!(
        Cli::try_parse_from(&argv(&["pmi-k8s", "foo"])),
        Err(CliError::MissingNproc)
    ));
    assert!(matches!(
        Cli::try_parse_from(&argv(&["pmi-k8s", "--nproc=x", "foo"])),
        Err(CliError::InvalidNproc)
    ));
    assert!(matches!(
        Cli::try_parse_from(&argv(&["pmi-k8s", "--verbose", "--nproc=2", "foo"])),
        Err(CliError::UnknownArgument)
    ));
    assert!(matches!(
        Cli::try_parse_from(&argv(&["pmi-k8s", "--nproc=2", "--nproc=3", "foo"])),
        Err(CliError::DuplicateNproc)
    ));
    let cli = Cli::try_parse_from(&argv(&["pmi-k8s", "--nproc", "2", "foo"])).unwrap();
    assert_eq!(cli.nproc, 2);
}

#[test]
fn test_pod_identity_from_vars() {
    let id = PodIdentity::from_vars(
        Some("pod-1".to_string()),
        Some("default".to_string()),
        Some("10.0.0.7".to_string()),
        Some("job".to_string()),
        Some("1".to_string()),
        Some("4".to_string()),
        None,
    )
    .unwrap();
    assert_eq!(id.rank, 1);
    assert_eq!(id.world_size, 4);
    assert_eq!(id.coord_port, DEFAULT_COORD_PORT);
    assert_eq!(id.coord_addr(), "10.0.0.7:5000");
    assert_eq!(id.pmix_nspace(), "default.job");

    assert!(matches!(
        PodIdentity::from_vars(None, None, None, None, None, None, None),
        Err(EnvError::MissingVar("MPI_K8S_POD_NAME"))
    ));
    assert!(matches!(
        PodIdentity::from_vars(
            Some("p".to_string()),
            Some("n".to_string()),
            Some("i".to_string()),
            Some("j".to_string()),
            Some("nope".to_string()),
            Some("4".to_string()),
            None,
        ),
        Err(EnvError::InvalidValue("JOB_COMPLETION_INDEX"))
    ));
}

#[test]
fn test_pmix_nspace_byte_limit() {
    let mut id = PodIdentity::for_testing(0, 1);
    id.namespace = "n".repeat(300);
    id.job_name = "job".to_string();
    let nspace = id.pmix_nspace();
    assert_eq!(nspace.len(), 255);
    assert_eq!(nspace, "n".repeat(255));

    // a multi-byte character straddling the limit is dropped whole
    id.namespace = "n".repeat(254);
    id.job_name = "\u{e9}".to_string();
    let nspace = id.pmix_nspace();
    assert_eq!(nspace.len(), 255);
    assert!(nspace.ends_with('.'));
}

#[test]
fn test_pod_identity_for_testing() {
    let id = PodIdentity::for_testing(2, 4);
    assert_eq!(id.pod_name, "test-pod-2");
    assert_eq!(id.namespace, "default");
    assert_eq!(id.coord_port, DEFAULT_COORD_PORT + 2);
    assert_eq!(id.coord_addr(), "127.0.0.1:5002");
}

fn ready_pod(name: &str, index: &str, ip: &str) -> PodRecord {
    PodRecord {
        name: Some(name.to_string()),
        labels: vec![(
            "batch.kubernetes.io/job-completion-index".to_string(),
            index.to_string(),
        )],
        phase: Some("Running".to_string()),
        conditions: vec![("Ready".to_string(), "True".to_string())],
        pod_ip: Some(ip.to_string()),
    }
}

#[test]
fn test_pod_to_peer() {
    let pod = ready_pod("pod-3", "3", "10.0.0.3");
    let peer = pod_to_peer(&pod, 5000).unwrap();
    assert_eq!(peer.name, "pod-3");
    assert_eq!(peer.rank, 3);
    assert_eq!(peer.ip, "10.0.0.3");
    assert_eq!(peer.coord_addr(), "10.0.0.3:5000");

    let mut pending = ready_pod("pod-4", "4", "10.0.0.4");
    pending.phase = Some("Pending".to_string());
    assert!(pod_to_peer(&pending, 5000).is_none());

    let mut unready = ready_pod("pod-5", "5", "10.0.0.5");
    unready.conditions = vec![("Ready".to_string(), "False".to_string())];
    assert!(pod_to_peer(&unready, 5000).is_none());

    let mut unlabeled = ready_pod("pod-6", "6", "10.0.0.6");
    unlabeled.labels = Vec::new();
    assert!(pod_to_peer(&unlabeled, 5000).is_none());
}

#[test]
fn test_pod_fallback_label() {
    let pod = PodRecord {
        name: Some("pod-9".to_string()),
        labels: vec![("job-completion-index".to_string(), "9".to_string())],
        phase: Some("Running".to_string()),
        conditions: vec![("Ready".to_string(), "True".to_string())],
        pod_ip: Some("10.0.0.9".to_string()),
    };
    assert_eq!(pod_to_peer(&pod, 5000).unwrap().rank, 9);
}

#[test]
fn test_sort_peers_by_rank() {
    let peers = vec![
        PeerPod { name: "b".to_string(), ip: "2".to_string(), rank: 2, coord_port: 1 },
        PeerPod { name: "a".to_string(), ip: "0".to_string(), rank: 0, coord_port: 1 },
        PeerPod { name: "c".to_string(), ip: "1".to_string(), rank: 1, coord_port: 1 },
    ];
    let sorted = sort_peers_by_rank(peers);
    let ranks: Vec<u32> = sorted.iter().map(|p| p.rank).collect();
    assert_eq!(ranks, vec![0, 1, 2]);
}

#[test]
fn test_ready_pods_fold() {
    let mut ready = ReadyPods::new();
    ready.apply(&PodEvent::Init, 5000);
    assert_eq!(ready.count(), 0);
    ready.apply(&PodEvent::Apply(ready_pod("pod-0", "0", "10.0.0.1")), 5000);
    ready.apply(&PodEvent::InitApply(ready_pod("pod-1", "1", "10.0.0.2")), 5000);
    // the same pod again, with a new address: still one entry
    ready.apply(&PodEvent::Apply(ready_pod("pod-0", "0", "10.0.0.8")), 5000);
    assert_eq!(ready.count(), 2);
    assert!(ready.is_complete(2));
    ready.apply(&PodEvent::Delete(ready_pod("pod-1", "1", "10.0.0.2")), 5000);
    assert_eq!(ready.count(), 1);
    assert!(!ready.is_complete(2));
    let peers = ready.into_peers();
    assert_eq!(peers[0].name, "pod-0");
    assert_eq!(peers[0].ip, "10.0.0.8");
}

#[test]
fn test_dir_discovery() {
    // Two nodes meet in a shared directory: the first to register claims
    // rank 0, the next rank 1, and both see both addresses.
    let n = 2u32;
    let discovery = DirPeerDiscovery::new("discovery-test".to_string(), n);
    assert_eq!(discovery.nnodes, n);
    assert_eq!(discovery.peer_file_name(0), "0");
    assert_eq!(discovery.peer_file_name(1), "1");

    let mut first = DirectoryPeers::new("discovery-test".to_string(), n);
    assert_eq!(first.register_choice(&vec![false, false]), Some(0));
    let mut second = DirectoryPeers::new("discovery-test".to_string(), n);
    assert_eq!(second.register_choice(&vec![true, false]), Some(1));
    let mut third = DirectoryPeers::new("discovery-test".to_string(), n);
    assert_eq!(third.register_choice(&vec![true, true]), None);

    let expected: HashSet<u32> = (0..n).collect();
    let claimed: HashSet<u32> = vec![first.node_rank.unwrap(), second.node_rank.unwrap()]
        .into_iter()
        .collect();
    assert_eq!(claimed, expected);
}

#[test]
fn test_directory_peers_ranks_and_hostnames() {
    let mut peers = DirectoryPeers::new("d".to_string(), 3);
    peers.register_choice(&vec![true, false, false]);
    assert_eq!(peers.local_ranks(2), vec![2, 3]);
    let names = peers.hostnames();
    assert_eq!(names, vec!["mpi-0", "mpi-1", "mpi-2"]);
}

#[test]
fn test_kubernetes_peers() {
    let peers = KubernetesPeers { job_name: "job".to_string(), nnodes: 2, node_rank: 1 };
    assert_eq!(
        peers.label_selector(None),
        "batch.kubernetes.io/job-name=job"
    );
    assert_eq!(
        peers.label_selector(Some(1)),
        "batch.kubernetes.io/job-name=job,batch.kubernetes.io/job-completion-index=1"
    );
    assert_eq!(peers.local_ranks(2), vec![2, 3]);
    assert_eq!(peers.hostnames(), vec!["job-0", "job-1"]);
}

#[test]
fn test_string_helpers() {
    assert_eq!(parse_u32("0"), Some(0));
    assert_eq!(parse_u32("007"), Some(7));
    assert_eq!(parse_u32("4294967295"), Some(u32::MAX));
    assert_eq!(parse_u32("4294967296"), None);
    assert_eq!(parse_u32(""), None);
    assert_eq!(parse_u32("12a"), None);
    assert_eq!(u32_to_string(0), "0");
    assert_eq!(u32_to_string(1234), "1234");
}
