use mpi_k8s::kv::KvStore;
use mpi_k8s::pmix::client::Client;
use mpi_k8s::pmix::globals::{
    self, client_connected, direct_modex, fence_nb, is_initialized, lookup, publish, query,
    server_init, server_module, Event, InitError, State,
};
use mpi_k8s::pmix::server::{
    abort_cb, client_connected_cb, direct_modex_cb, fence_nb_cb, FenceCallback, ModexCallback,
    PmixError, PmixEvent, PmixServer,
};
use mpi_k8s::pmix::sys::{
    is_success, key_to_string, make_proc, nspace_to_string, status_string, str_to_key,
    str_to_nspace, PMIX_ERR_INIT, PMIX_ERR_NOT_SUPPORTED, PMIX_INFO_REQD,
    PMIX_INFO_REQD_PROCESSED, PMIX_OPERATION_SUCCEEDED, PMIX_SUCCESS,
};
use mpi_k8s::pmix::value::{namespace_descriptor, InfoValue};

#[test]
fn test_server_init() {
    let mut slot: Option<State> = None;
    assert!(!is_initialized(&slot));
    server_init(&mut slot).unwrap();
    assert!(is_initialized(&slot));
}

#[test]
fn test_server_singleton() {
    let mut slot: Option<State> = None;
    let s1 = PmixServer::new(&mut slot, "/tmp/pmix");
    assert!(s1.is_ok());
    assert!(is_initialized(&slot));
    // a second server in the same process is refused, the first untouched
    let s2 = PmixServer::new(&mut slot, "/tmp/pmix");
    assert!(matches!(s2, Err(PmixError::AlreadyInitialized)));
    assert!(is_initialized(&slot));
    // after the first server is dropped and finalizes the library, a new
    // server comes up
    globals::finalize(&mut slot);
    assert!(!is_initialized(&slot));
    let s3 = PmixServer::new(&mut slot, "/tmp/pmix");
    assert!(s3.is_ok());
}

#[test]
fn test_client_singleton() {
    let mut slot: Option<State> = None;
    let c = Client::init(&mut slot, make_proc("foo", 3)).unwrap();
    assert_eq!(c.rank(), 3);
    assert_eq!(c.namespace(), "foo");
    assert!(matches!(
        Client::init(&mut slot, make_proc("foo", 4)),
        Err(InitError::AlreadyInitialized)
    ));
}

#[test]
fn test_server_module_table() {
    let m = server_module();
    assert!(m.fence_nb && m.direct_modex && m.publish && m.lookup && m.query && m.client_connected2);
    assert!(!m.spawn && !m.connect && !m.disconnect && !m.notify_event && !m.group);
    assert!(!m.client_connected && !m.client_finalized && !m.abort);
}

#[test]
fn test_unsupported_operations_no_event() {
    let proc = make_proc("ns", 0);
    let (status, event) = publish(&proc, 0);
    assert_eq!(status, PMIX_ERR_NOT_SUPPORTED);
    assert!(event.is_none());
    let (status, event) = lookup(&proc, 1);
    assert_eq!(status, PMIX_ERR_NOT_SUPPORTED);
    assert!(event.is_none());
    let (status, event) = query(2);
    assert_eq!(status, PMIX_ERR_NOT_SUPPORTED);
    assert!(event.is_none());
    assert_eq!(client_connected(&proc, 0), PMIX_OPERATION_SUCCEEDED);
}

#[test]
fn test_fence_nb_required_info_refused() {
    let slot = Some(State::Server);
    let (status, event) = fence_nb(
        &slot,
        &vec![PMIX_INFO_REQD],
        vec![make_proc("ns", 0)],
        vec![1],
        ModexCallback::new(1),
    );
    assert_eq!(status, PMIX_ERR_NOT_SUPPORTED);
    assert!(event.is_none());

    // a required bit already marked processed is fine
    let (status, event) = fence_nb(
        &slot,
        &vec![PMIX_INFO_REQD | PMIX_INFO_REQD_PROCESSED],
        vec![make_proc("ns", 0)],
        vec![1],
        ModexCallback::new(1),
    );
    assert_eq!(status, PMIX_SUCCESS);
    assert!(matches!(event, Some(Event::Fence { .. })));
}

#[test]
fn test_fence_nb_without_server() {
    let (status, event) = fence_nb(
        &None,
        &vec![],
        vec![make_proc("ns", 0)],
        vec![],
        ModexCallback::new(1),
    );
    assert_eq!(status, PMIX_ERR_INIT);
    assert!(event.is_none());
    let (status, event) = direct_modex(&None, &vec![], make_proc("ns", 1), ModexCallback::new(2));
    assert_eq!(status, PMIX_ERR_INIT);
    assert!(event.is_none());
}

#[test]
fn test_direct_modex_event() {
    let slot = Some(State::Server);
    let (status, event) = direct_modex(&slot, &vec![], make_proc("ns", 1), ModexCallback::new(2));
    assert_eq!(status, PMIX_SUCCESS);
    match event {
        Some(Event::DirectModex { proc, .. }) => assert_eq!(proc.rank, 1),
        _ => panic!("expected a direct modex event"),
    }
}

#[test]
fn test_direct_modex_cb_local_hit_skips_coordinator() {
    let slot = Some(State::Server);
    let mut kv = KvStore::new();
    kv.put_modex_data("ns", 1, vec![9, 9]);
    let (status, event, inv) = direct_modex_cb(&slot, "ns", 1, &kv, ModexCallback::new(5));
    assert_eq!(status, PMIX_SUCCESS);
    assert!(event.is_none());
    let inv = inv.unwrap();
    assert_eq!(inv.token, 5);
    assert_eq!(inv.status, PMIX_SUCCESS);
    assert_eq!(inv.data, vec![9, 9]);

    // an unknown rank goes to the coordinator instead
    let (status, event, inv) = direct_modex_cb(&slot, "ns", 7, &kv, ModexCallback::new(6));
    assert_eq!(status, PMIX_SUCCESS);
    assert!(inv.is_none());
    match event {
        Some(PmixEvent::DirectModexRequest { nspace, rank, .. }) => {
            assert_eq!(nspace, "ns");
            assert_eq!(rank, 7);
        },
        _ => panic!("expected a direct modex request event"),
    }
}

#[test]
fn test_fence_nb_cb_builds_request() {
    let slot = Some(State::Server);
    let procs = vec![make_proc("ns", 0), make_proc("ns", 1)];
    let (status, event) = fence_nb_cb(&slot, &procs, vec![0xaa], FenceCallback::new(9));
    assert_eq!(status, PMIX_SUCCESS);
    match event {
        Some(PmixEvent::FenceRequest { request, data, .. }) => {
            assert_eq!(data, vec![0xaa]);
            assert_eq!(request.participants.len(), 2);
            assert_eq!(request.participants[0], ("ns".to_string(), 0));
            assert_eq!(request.participants[1], ("ns".to_string(), 1));
        },
        _ => panic!("expected a fence request event"),
    }
}

#[test]
fn test_client_callbacks() {
    let slot = Some(State::Server);
    let proc = make_proc("ns", 2);
    let (status, event) = client_connected_cb(&slot, &proc);
    assert_eq!(status, PMIX_SUCCESS);
    match event {
        Some(PmixEvent::ClientConnected { nspace, rank }) => {
            assert_eq!(nspace, "ns");
            assert_eq!(rank, 2);
        },
        _ => panic!("expected a client connected event"),
    }
    let (status, event) = abort_cb(&slot, &proc, 3, "bad".to_string());
    assert_eq!(status, PMIX_SUCCESS);
    match event {
        Some(PmixEvent::Abort { rank, status, message, .. }) => {
            assert_eq!(rank, 2);
            assert_eq!(status, 3);
            assert_eq!(message, "bad");
        },
        _ => panic!("expected an abort event"),
    }
}

#[test]
fn test_nspace_and_key_helpers() {
    let nspace = str_to_nspace("hello");
    assert_eq!(&nspace[..5], b"hello");
    assert_eq!(nspace[5], 0);
    assert_eq!(nspace_to_string(&nspace), "hello");
    let key = str_to_key("pmix.job.size");
    assert_eq!(key_to_string(&key), "pmix.job.size");
    let proc = make_proc("foo", 7);
    assert_eq!(proc.rank, 7);
    assert_eq!(nspace_to_string(&proc.nspace), "foo");
}

#[test]
fn test_status_helpers() {
    assert!(is_success(PMIX_SUCCESS));
    assert!(!is_success(PMIX_ERR_NOT_SUPPORTED));
    assert_eq!(status_string(PMIX_SUCCESS), "PMIX_SUCCESS");
    assert_eq!(status_string(PMIX_ERR_NOT_SUPPORTED), "PMIX_ERR_NOT_SUPPORTED");
    assert_eq!(status_string(12345), "PMIX_ERR_UNKNOWN");
}

#[test]
fn test_namespace_descriptor() {
    let hostnames = vec!["host-0".to_string(), "host-1".to_string()];
    let infos = namespace_descriptor(&hostnames, 2);
    // one job-size record, one array per node, one array per global rank
    assert_eq!(infos.len(), 1 + 2 + 4);
    assert_eq!(infos[0].key, "pmix.job.size");
    assert!(matches!(infos[0].value, InfoValue::U32(4)));
    match &infos[1].value {
        InfoValue::InfoArray(a) => {
            assert!(matches!(&a[0].value, InfoValue::Str(h) if h == "host-0"));
            assert!(matches!(a[1].value, InfoValue::U32(0)));
        },
        _ => panic!("expected a node info array"),
    }
    // global rank 3 is local rank 1 on node 1
    match &infos[3 + 3].value {
        InfoValue::InfoArray(a) => {
            assert!(matches!(a[0].value, InfoValue::Rank(3)));
            assert!(matches!(a[1].value, InfoValue::U16(1)));
            assert!(matches!(a[2].value, InfoValue::U32(1)));
        },
        _ => panic!("expected a proc info array"),
    }
}

#[test]
fn test_register_and_setup_fork() {
    let mut slot: Option<State> = None;
    let mut server = PmixServer::new(&mut slot, "/tmp/pmix").unwrap();
    let hostnames = vec!["host-0".to_string(), "host-1".to_string()];
    let infos = server.register_nspace("ns", &hostnames, 2).unwrap();
    // the submitted descriptor: job size, per-node arrays, per-proc arrays
    assert_eq!(infos.len(), 1 + 2 + 4);
    assert_eq!(infos[0].key, "pmix.job.size");
    assert!(matches!(infos[0].value, InfoValue::U32(4)));
    assert!(matches!(infos[1].value, InfoValue::InfoArray(_)));
    assert!(matches!(infos[3].value, InfoValue::InfoArray(_)));
    server.register_client("ns", 0, 1000, 1000).unwrap();
    server.register_client("ns", 1, 1000, 1000).unwrap();
    assert_eq!(server.clients.len(), 2);
    assert_eq!(server.clients[1].rank, 1);
    assert_eq!(server.clients[1].uid, 1000);
    let env = server
        .setup_fork("ns", 0, &vec!["PMIX_RANK=0".to_string(), "garbage".to_string()])
        .unwrap();
    assert_eq!(env, vec![("PMIX_RANK".to_string(), "0".to_string())]);
}

#[test]
fn test_env_var() {
    let kvs = [("foo", "bar"), ("PMIX_FOO", "/tmp/foo")];
    let vars: Vec<String> = kvs.iter().map(|(k, v)| format!("{}={}", k, v)).collect();
    let envs = mpi_k8s::pmix::env::parse_env_entries(&vars);
    assert_eq!(envs.len(), kvs.len());
    for (env, kv) in envs.iter().zip(kvs) {
        assert_eq!(env.0, kv.0);
        assert_eq!(env.1, kv.1);
    }
}
