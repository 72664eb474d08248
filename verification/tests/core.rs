use std::collections::HashSet;

use mpi_k8s::coordinator::{FenceCoordinator, FenceRequest};
use mpi_k8s::fence::{aggregate_blobs, fence_node_ranks, fence_peer_plan, is_global_fence, FencePeers};
use mpi_k8s::kv::{KvKey, KvStore};
use mpi_k8s::modex::{needs_remote, owner_node, parse_proc, respond_bytes, serialize_proc};
use mpi_k8s::pmix::server::FenceCallback;
use mpi_k8s::pmix::sys::{make_proc, PMIX_ERROR, PMIX_RANK_WILDCARD, PMIX_SUCCESS};
use mpi_k8s::protocol::{frame_message, CoordMessage, MessageType, ProtocolError};
use mpi_k8s::wire::{push_u32_be, read_u16_be, read_u32_be, read_u64_be};

fn byte_set(v: &[u8]) -> HashSet<u8> {
    v.iter().copied().collect()
}

/// Simulate one fence participant: its own blob plus the others' blobs,
/// concatenated in an arrival order that starts at this participant.
fn fence_result_at(node: usize, payloads: &[Vec<u8>]) -> Vec<u8> {
    let n = payloads.len();
    let mut arrival = Vec::new();
    for k in 0..n {
        arrival.push(payloads[(node + k) % n].clone());
    }
    aggregate_blobs(&arrival)
}

#[test]
fn test_global_fence() {
    let nnodes = 4u32;
    let procs = vec![make_proc("fence-test", PMIX_RANK_WILDCARD)];
    assert!(is_global_fence(&procs));
    assert!(matches!(fence_peer_plan(&procs, 1), FencePeers::All));

    let payloads: Vec<Vec<u8>> = (0..nnodes as u8).map(|i| vec![i]).collect();
    let expected: HashSet<u8> = (0..nnodes as u8).collect();
    for node in 0..nnodes as usize {
        let result = fence_result_at(node, &payloads);
        assert_eq!(byte_set(&result), expected);
    }
}

#[test]
fn test_partial_fence() {
    let n_fence = 3u32;
    let procs: Vec<_> = (0..n_fence).map(|rank| make_proc("fence-test", rank)).collect();
    assert!(!is_global_fence(&procs));
    let nodes = fence_node_ranks(&procs, 1);
    let node_set: HashSet<u32> = nodes.iter().copied().collect();
    assert_eq!(node_set, (0..n_fence).collect());
    assert!(!node_set.contains(&3));

    let payloads: Vec<Vec<u8>> = (0..n_fence as u8).map(|i| vec![i]).collect();
    let expected: HashSet<u8> = (0..n_fence as u8).collect();
    for node in 0..n_fence as usize {
        let result = fence_result_at(node, &payloads);
        assert_eq!(byte_set(&result), expected);
    }
}

#[test]
fn test_overlapping_fence() {
    let fence_ranks = [0u32..3, 1..4];
    for ranks in fence_ranks {
        let procs: Vec<_> = ranks.clone().map(|rank| make_proc("fence-test", rank)).collect();
        let nodes = fence_node_ranks(&procs, 1);
        let node_set: HashSet<u32> = nodes.iter().copied().collect();
        assert_eq!(node_set, ranks.clone().collect());

        let payloads: Vec<Vec<u8>> = ranks.clone().map(|r| vec![r as u8]).collect();
        let expected: HashSet<u8> = ranks.clone().map(|r| r as u8).collect();
        for node in 0..payloads.len() {
            let result = fence_result_at(node, &payloads);
            assert_eq!(byte_set(&result), expected);
        }
    }
}

#[test]
fn test_single_node_fence_returns_local_blob() {
    let result = aggregate_blobs(&vec![vec![0xab, 0xcd]]);
    assert_eq!(result, vec![0xab, 0xcd]);
}

#[test]
fn test_empty_local_blob_fence() {
    let result = aggregate_blobs(&vec![vec![], vec![1], vec![2]]);
    assert_eq!(result, vec![1, 2]);
}

#[test]
fn test_fence_rereads_same() {
    let arrival = vec![vec![3u8], vec![1], vec![2]];
    let a = aggregate_blobs(&arrival);
    let b = aggregate_blobs(&arrival);
    assert_eq!(a, b);
}

#[test]
fn test_modex() {
    let nproc = 4u16;
    // The requester asks for the first rank of node 1.
    let proc = make_proc("modex-test", nproc as u32);
    assert!(needs_remote(proc.rank, nproc, 0));
    assert_eq!(owner_node(proc.rank, nproc), 1);

    // On the wire: the fixed 260-byte request reaches the responder,
    // whose library answers with [1, 2, 3].
    let request = serialize_proc(&proc);
    assert_eq!(request.len(), 260);
    let (parsed, response) = respond_bytes(&request, vec![1, 2, 3]);
    assert_eq!(parsed.rank, nproc as u32);
    assert_eq!(parsed.nspace, proc.nspace);
    assert_eq!(response, vec![1, 2, 3]);
}

#[test]
fn test_modex_local_rank_stays_local() {
    assert!(!needs_remote(1, 4, 0));
    assert!(needs_remote(4, 4, 0));
}

#[test]
fn test_proc_round_trip() {
    let proc = make_proc("a-namespace", 0x01020304);
    let parsed = parse_proc(&serialize_proc(&proc));
    assert_eq!(parsed.nspace, proc.nspace);
    assert_eq!(parsed.rank, proc.rank);
}

#[test]
fn test_message_type_codes() {
    assert!(matches!(MessageType::try_from(1), Ok(MessageType::FenceData)));
    assert!(matches!(MessageType::try_from(6), Ok(MessageType::ErrorResponse)));
    assert!(matches!(
        MessageType::try_from(7),
        Err(ProtocolError::InvalidMessageType(7))
    ));
    assert_eq!(MessageType::FenceComplete.code(), 2);
}

#[test]
fn test_encode_ack_exact_bytes() {
    let msg = CoordMessage::Ack { request_id: 7 };
    assert_eq!(msg.encode(), vec![5, 0, 0, 0, 0, 0, 0, 0, 7]);
}

#[test]
fn test_encode_decode_round_trip() {
    let messages = vec![
        CoordMessage::FenceData { fence_id: 1, rank: 2, data: vec![9, 8, 7] },
        CoordMessage::FenceComplete {
            fence_id: 3,
            all_data: vec![(0, vec![1]), (1, vec![2, 3])],
        },
        CoordMessage::ModexRequest { request_id: 4, nspace: "ns".to_string(), rank: 5 },
        CoordMessage::ModexResponse { request_id: 6, data: Some(vec![4, 5]) },
        CoordMessage::ModexResponse { request_id: 6, data: None },
        CoordMessage::Ack { request_id: 7 },
        CoordMessage::Error { request_id: 8, message: "boom".to_string() },
    ];
    for msg in messages {
        let encoded = msg.encode();
        let decoded = CoordMessage::decode(encoded).unwrap();
        match (msg, decoded) {
            (
                CoordMessage::FenceData { fence_id: a, rank: b, data: c },
                CoordMessage::FenceData { fence_id: x, rank: y, data: z },
            ) => {
                assert_eq!((a, b, c), (x, y, z));
            },
            (
                CoordMessage::FenceComplete { fence_id: a, all_data: b },
                CoordMessage::FenceComplete { fence_id: x, all_data: y },
            ) => {
                assert_eq!((a, b), (x, y));
            },
            (
                CoordMessage::ModexRequest { request_id: a, nspace: b, rank: c },
                CoordMessage::ModexRequest { request_id: x, nspace: y, rank: z },
            ) => {
                assert_eq!((a, b, c), (x, y, z));
            },
            (
                CoordMessage::ModexResponse { request_id: a, data: b },
                CoordMessage::ModexResponse { request_id: x, data: y },
            ) => {
                assert_eq!((a, b), (x, y));
            },
            (
                CoordMessage::Ack { request_id: a },
                CoordMessage::Ack { request_id: x },
            ) => {
                assert_eq!(a, x);
            },
            (
                CoordMessage::Error { request_id: a, message: b },
                CoordMessage::Error { request_id: x, message: y },
            ) => {
                assert_eq!((a, b), (x, y));
            },
            _ => panic!("decoded message has a different type"),
        }
    }
}

#[test]
fn test_decode_errors() {
    assert!(matches!(
        CoordMessage::decode(vec![]),
        Err(ProtocolError::IncompletMessage)
    ));
    assert!(matches!(
        CoordMessage::decode(vec![9]),
        Err(ProtocolError::InvalidMessageType(9))
    ));
    // A fence-data header that promises more payload than it carries.
    assert!(matches!(
        CoordMessage::decode(vec![1, 0, 0, 0, 0, 0, 0, 0, 1, 0, 0, 0, 2, 0, 0, 0, 9]),
        Err(ProtocolError::IncompletMessage)
    ));
    // A modex request whose namespace bytes are not UTF-8.
    let mut bad = vec![3u8, 0, 0, 0, 0, 0, 0, 0, 1, 0, 2, 0xff, 0xfe];
    bad.extend_from_slice(&[0, 0, 0, 0]);
    assert!(matches!(CoordMessage::decode(bad), Err(ProtocolError::InvalidUtf8)));
}

#[test]
fn test_frame_message() {
    let framed = frame_message(&vec![5, 0, 0, 0, 0, 0, 0, 0, 7]);
    assert_eq!(framed[..4], [0, 0, 0, 9]);
    assert_eq!(framed[4..], [5, 0, 0, 0, 0, 0, 0, 0, 7]);
}

#[test]
fn test_wire_round_trips() {
    let mut buf = Vec::new();
    push_u32_be(&mut buf, 0x01020304);
    assert_eq!(buf, vec![1, 2, 3, 4]);
    assert_eq!(read_u32_be(&buf, 0), 0x01020304);
    let buf = vec![0xab, 0xcd, 1, 2, 3, 4, 5, 6, 7, 8];
    assert_eq!(read_u16_be(&buf, 0), 0xabcd);
    assert_eq!(read_u64_be(&buf, 2), 0x0102030405060708);
}

#[test]
fn test_kv_store() {
    let mut kv = KvStore::new();
    let key = KvKey::new("ns".to_string(), 3, "k".to_string());
    kv.put(key.clone(), vec![1, 2]);
    assert_eq!(kv.get(&key), Some(vec![1, 2]));
    kv.put(key.clone(), vec![3]);
    assert_eq!(kv.get(&key), Some(vec![3]));
    assert_eq!(kv.remove(&key), Some(vec![3]));
    assert_eq!(kv.get(&key), None);
    assert_eq!(kv.remove(&key), None);
}

#[test]
fn test_kv_modex_data() {
    let mut kv = KvStore::new();
    kv.put_modex_data("ns", 0, vec![1]);
    kv.put_bulk_modex_data("ns", &vec![(1, vec![2]), (2, vec![3])]);
    kv.put_modex_data("other", 0, vec![9]);
    assert_eq!(kv.get_modex_data("ns", 1), Some(vec![2]));
    assert_eq!(kv.get_local_data_blob("ns", 2), vec![3]);
    assert_eq!(kv.get_local_data_blob("ns", 7), Vec::<u8>::new());
    let stats = kv.stats();
    assert_eq!(stats.num_keys, 0);
    assert_eq!(stats.num_modex_entries, 4);
    kv.clear_namespace("ns");
    assert_eq!(kv.get_modex_data("ns", 1), None);
    assert_eq!(kv.get_modex_data("other", 0), Some(vec![9]));
    assert_eq!(kv.stats().num_modex_entries, 1);
}

#[test]
fn test_kv_key_modex() {
    let key = KvKey::modex("ns".to_string(), 5);
    assert_eq!(key.nspace, "ns");
    assert_eq!(key.rank, 5);
    assert_eq!(key.key, "__modex__");
}

#[test]
fn test_single_participant_fence_completes_immediately() {
    let mut kv = KvStore::new();
    let mut coordinator = FenceCoordinator::new(0, 1, Vec::new());
    let request = FenceRequest { participants: vec![("ns".to_string(), 0)] };
    let outcome = coordinator
        .start_fence(request, vec![0xaa], FenceCallback::new(1), "ns", &mut kv)
        .unwrap();
    let inv = outcome.completed.expect("single-node fence completes at once");
    assert_eq!(inv.token, 1);
    assert_eq!(inv.status, PMIX_SUCCESS);
    // combined format: rank and length as little-endian words, then the blob
    assert_eq!(inv.data, vec![0, 0, 0, 0, 1, 0, 0, 0, 0xaa]);
    assert!(outcome.sends.is_empty());
    assert_eq!(coordinator.active_fence_count(), 0);
    assert_eq!(kv.get_modex_data("ns", 0), Some(vec![0xaa]));
}

#[test]
fn test_two_node_fence_via_coordinator() {
    let mut kv = KvStore::new();
    let peers = vec![
        mpi_k8s::k8s::pods::PeerPod {
            name: "pod-0".to_string(),
            ip: "10.0.0.1".to_string(),
            rank: 0,
            coord_port: 5000,
        },
        mpi_k8s::k8s::pods::PeerPod {
            name: "pod-1".to_string(),
            ip: "10.0.0.2".to_string(),
            rank: 1,
            coord_port: 5000,
        },
    ];
    let mut coordinator = FenceCoordinator::new(0, 2, peers);
    let request = FenceRequest { participants: vec![("ns".to_string(), 0), ("ns".to_string(), 1)] };
    let outcome = coordinator
        .start_fence(request, vec![0x00], FenceCallback::new(42), "ns", &mut kv)
        .unwrap();
    assert!(outcome.completed.is_none());
    assert_eq!(coordinator.active_fence_count(), 1);
    // our blob goes to the one other peer
    assert_eq!(outcome.sends.len(), 1);
    assert_eq!(outcome.sends[0].0, "10.0.0.2:5000");
    match &outcome.sends[0].1 {
        CoordMessage::FenceData { fence_id, rank, data } => {
            assert_eq!(*fence_id, 0);
            assert_eq!(*rank, 0);
            assert_eq!(data, &vec![0x00]);
        },
        _ => panic!("expected fence data"),
    }

    // peer 1's blob arrives: the fence completes
    let inv = coordinator
        .handle_fence_data(0, 1, vec![0x01], "ns", &mut kv)
        .expect("fence completes with both blobs");
    assert_eq!(inv.token, 42);
    assert_eq!(inv.status, PMIX_SUCCESS);
    let expected: HashSet<u8> = [0x00, 0x01].into_iter().collect();
    // the per-rank payloads inside the combined buffer
    let payloads: HashSet<u8> = vec![inv.data[8], inv.data[17]].into_iter().collect();
    assert_eq!(payloads, expected);
    assert_eq!(coordinator.active_fence_count(), 0);
    assert_eq!(kv.get_modex_data("ns", 1), Some(vec![0x01]));
}

#[test]
fn test_fail_fence() {
    let mut kv = KvStore::new();
    let mut coordinator = FenceCoordinator::new(0, 2, Vec::new());
    let request = FenceRequest { participants: vec![("ns".to_string(), 0), ("ns".to_string(), 1)] };
    coordinator
        .start_fence(request, vec![0x00], FenceCallback::new(11), "ns", &mut kv)
        .unwrap();
    assert_eq!(coordinator.active_fence_count(), 1);
    // an unknown fence id fails nothing
    assert!(coordinator.fail_fence(9, PMIX_ERROR).is_none());
    assert_eq!(coordinator.active_fence_count(), 1);
    // a fatal peer error fails the fence: the continuation gets the
    // non-success status and the fence leaves the table
    let inv = coordinator.fail_fence(0, PMIX_ERROR).expect("fence fails with its callback");
    assert_eq!(inv.token, 11);
    assert_eq!(inv.status, PMIX_ERROR);
    assert!(inv.data.is_empty());
    assert_eq!(coordinator.active_fence_count(), 0);
}

#[test]
fn test_fence_data_for_unknown_fence() {
    let mut kv = KvStore::new();
    let mut coordinator = FenceCoordinator::new(0, 2, Vec::new());
    let r = coordinator.handle_fence_data(9, 1, vec![0x01], "ns", &mut kv);
    assert!(r.is_none());
    // the blob is still cached for later direct modex
    assert_eq!(kv.get_modex_data("ns", 1), Some(vec![0x01]));
}

#[test]
fn test_handle_coord_message_dispatch() {
    let mut kv = KvStore::new();
    let mut coordinator = FenceCoordinator::new(0, 2, Vec::new());
    let r = coordinator.handle_coord_message(CoordMessage::Ack { request_id: 1 }, "ns", &mut kv);
    assert!(r.is_none());
    assert_eq!(kv.stats().num_modex_entries, 0);
    let msg = CoordMessage::FenceData { fence_id: 0, rank: 1, data: vec![7] };
    let r = coordinator.handle_coord_message(msg, "ns", &mut kv);
    assert!(r.is_none());
    assert_eq!(kv.get_modex_data("ns", 1), Some(vec![7]));
}
