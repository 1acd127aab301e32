use kops::handler::{run, HandleOutcome, Handler};
use kops::mirror::{ClusterState, PodStore, WatchEvent};
use kops::config::{load, ClusterConfig, KopsSection};
use kops::pod::{ContainerSpec, ContainerStateDetail, ContainerStatus, PodResource, PodSpec, PodStatus};
use kops::protocol::{
    EnvEntry, EnvRequest, LoginRequest, PodsRequest, Request, Response, VersionInfo,
};
use kops::state::DaemonState;

fn version_info() -> VersionInfo {
    VersionInfo {
        daemon_version: "0.1.0".to_string(),
        protocol_version: "1".to_string(),
        git_sha: Some("abc123".to_string()),
        build_date: None,
    }
}

fn pod(namespace: &str, name: &str, phase: Option<&str>) -> PodResource {
    PodResource {
        name: Some(name.to_string()),
        namespace: Some(namespace.to_string()),
        status: Some(PodStatus {
            phase: phase.map(|p| p.to_string()),
            conditions: None,
            container_statuses: None,
        }),
        spec: Some(PodSpec { containers: vec![] }),
    }
}

fn env_container(name: &str, vars: &[(&str, Option<&str>)]) -> ContainerSpec {
    ContainerSpec {
        name: name.to_string(),
        env: vars
            .iter()
            .map(|(n, v)| EnvEntry { name: n.to_string(), value: v.map(|x| x.to_string()) })
            .collect(),
    }
}

fn handler_with_pods(cluster: &str, pods: Vec<PodResource>) -> Handler {
    let mut store = PodStore::new();
    for p in pods {
        store.apply(WatchEvent::Apply(p));
    }
    let mut state = DaemonState::new(cluster.to_string(), version_info());
    state.put_cluster(cluster.to_string(), ClusterState::new(cluster.to_string(), store));
    Handler::new(state)
}

fn expect_done(outcome: HandleOutcome) -> Response {
    match outcome {
        HandleOutcome::Done(resp) => resp,
        HandleOutcome::NeedAttach { profile } => {
            panic!("unexpected attach request for profile {profile}")
        }
    }
}

#[test]
fn ping_answers_pong() {
    let mut h = handler_with_pods("c1", vec![]);
    assert_eq!(expect_done(h.handle(Request::Ping)), Response::Pong);
}

#[test]
fn repeated_pings_answer_pongs_and_change_nothing() {
    let mut h = handler_with_pods("c1", vec![pod("ns", "a", Some("Running"))]);
    let before = format!("{:?}", h.state());
    let pings = vec![Request::Ping, Request::Ping, Request::Ping];
    let responses = run(&mut h, pings, vec![]);
    assert_eq!(responses, vec![Response::Pong, Response::Pong, Response::Pong]);
    assert_eq!(format!("{:?}", h.state()), before);
}

#[test]
fn version_reports_the_registry_version() {
    let mut h = handler_with_pods("c1", vec![]);
    match expect_done(h.handle(Request::Version)) {
        Response::Version(v) => {
            assert_eq!(v.daemon_version, "0.1.0");
            assert_eq!(v.protocol_version, "1");
            assert_eq!(v.git_sha.as_deref(), Some("abc123"));
            assert_eq!(v.build_date, None);
        }
        other => panic!("wrong variant: {other:?}"),
    }
}

#[test]
fn pods_of_empty_mirror_is_empty_list() {
    let mut h = handler_with_pods("c1", vec![]);
    let resp = expect_done(h.handle(Request::Pods(PodsRequest {
        cluster: None,
        namespace: None,
        failed_only: false,
    })));
    assert_eq!(resp, Response::Pods { pods: vec![] });
}

#[test]
fn pods_filters_by_namespace() {
    let mut h = handler_with_pods(
        "c1",
        vec![pod("observability", "a", Some("Running")), pod("kube-system", "b", None)],
    );
    let resp = expect_done(h.handle(Request::Pods(PodsRequest {
        cluster: None,
        namespace: Some("observability".to_string()),
        failed_only: false,
    })));
    match resp {
        Response::Pods { pods } => {
            assert_eq!(pods.len(), 1);
            assert_eq!(pods[0].name, "a");
            assert_eq!(pods[0].namespace, "observability");
            assert_eq!(pods[0].cluster, "c1");
        }
        other => panic!("wrong variant: {other:?}"),
    }
}

#[test]
fn pods_failed_only_keeps_the_failed_pod() {
    let mut h = handler_with_pods(
        "c1",
        vec![pod("ns", "bad", Some("Failed")), pod("ns", "good", Some("Running"))],
    );
    let resp = expect_done(h.handle(Request::Pods(PodsRequest {
        cluster: None,
        namespace: None,
        failed_only: true,
    })));
    match resp {
        Response::Pods { pods } => {
            assert_eq!(pods.len(), 1);
            assert_eq!(pods[0].name, "bad");
            assert_eq!(pods[0].phase.as_deref(), Some("Failed"));
        }
        other => panic!("wrong variant: {other:?}"),
    }
}

#[test]
fn pods_failed_only_also_keeps_crash_looping_pods() {
    let crashing = PodResource {
        name: Some("crashy".to_string()),
        namespace: Some("ns".to_string()),
        status: Some(PodStatus {
            phase: Some("Running".to_string()),
            conditions: None,
            container_statuses: Some(vec![ContainerStatus {
                restart_count: 7,
                waiting: Some(ContainerStateDetail {
                    reason: Some("CrashLoopBackOff".to_string()),
                    message: Some("back-off".to_string()),
                }),
                terminated: None,
            }]),
        }),
        spec: None,
    };
    let mut h = handler_with_pods("c1", vec![crashing, pod("ns", "calm", Some("Running"))]);
    let resp = expect_done(h.handle(Request::Pods(PodsRequest {
        cluster: None,
        namespace: None,
        failed_only: true,
    })));
    match resp {
        Response::Pods { pods } => {
            assert_eq!(pods.len(), 1);
            assert_eq!(pods[0].name, "crashy");
            assert_eq!(pods[0].reason.as_deref(), Some("CrashLoopBackOff"));
            assert_eq!(pods[0].restart_count, 7);
        }
        other => panic!("wrong variant: {other:?}"),
    }
}

#[test]
fn pods_are_sorted_by_namespace_then_name() {
    let mut h = handler_with_pods(
        "c1",
        vec![
            pod("zeta", "a", None),
            pod("alpha", "z", None),
            pod("alpha", "a", None),
        ],
    );
    let resp = expect_done(h.handle(Request::Pods(PodsRequest {
        cluster: None,
        namespace: None,
        failed_only: false,
    })));
    match resp {
        Response::Pods { pods } => {
            let keys: Vec<(String, String)> =
                pods.iter().map(|p| (p.namespace.clone(), p.name.clone())).collect();
            assert_eq!(
                keys,
                vec![
                    ("alpha".to_string(), "a".to_string()),
                    ("alpha".to_string(), "z".to_string()),
                    ("zeta".to_string(), "a".to_string()),
                ]
            );
        }
        other => panic!("wrong variant: {other:?}"),
    }
}

#[test]
fn unknown_cluster_names_the_cluster_in_the_error() {
    let mut h = handler_with_pods("c1", vec![]);
    let resp = expect_done(h.handle(Request::Pods(PodsRequest {
        cluster: Some("never-attached".to_string()),
        namespace: None,
        failed_only: false,
    })));
    match resp {
        Response::Error { message } => {
            assert!(message.contains("never-attached"));
            assert_eq!(message, "cluster not found: never-attached");
        }
        other => panic!("wrong variant: {other:?}"),
    }
}

#[test]
fn env_for_an_unknown_cluster_names_the_cluster_in_the_error() {
    let mut h = handler_with_pods("c1", vec![]);
    let resp = expect_done(h.handle(Request::Env(EnvRequest {
        cluster: Some("never-attached".to_string()),
        namespace: "ns".to_string(),
        pod: "a".to_string(),
        container: None,
        filter_regex: None,
    })));
    match resp {
        Response::Error { message } => {
            assert!(message.contains("never-attached"));
            assert_eq!(message, "cluster not found: never-attached");
        }
        other => panic!("wrong variant: {other:?}"),
    }
}

#[test]
fn env_merges_all_containers_sorted_ignoring_container_field() {
    let p = PodResource {
        name: Some("api-0".to_string()),
        namespace: Some("ns".to_string()),
        status: None,
        spec: Some(PodSpec {
            containers: vec![
                env_container("one", &[("B", Some("2"))]),
                env_container("two", &[("A", Some("1"))]),
            ],
        }),
    };
    let mut h = handler_with_pods("c1", vec![p]);
    let resp = expect_done(h.handle(Request::Env(EnvRequest {
        cluster: None,
        namespace: "ns".to_string(),
        pod: "api-0".to_string(),
        container: Some("one".to_string()),
        filter_regex: Some("ignored".to_string()),
    })));
    match resp {
        Response::EnvVars { vars } => {
            assert_eq!(
                vars,
                vec![
                    EnvEntry { name: "A".to_string(), value: Some("1".to_string()) },
                    EnvEntry { name: "B".to_string(), value: Some("2".to_string()) },
                ]
            );
        }
        other => panic!("wrong variant: {other:?}"),
    }
}

#[test]
fn env_of_pod_without_declared_vars_is_empty_not_an_error() {
    let no_containers = PodResource {
        name: Some("empty-0".to_string()),
        namespace: Some("ns".to_string()),
        status: None,
        spec: Some(PodSpec { containers: vec![] }),
    };
    let empty_env = PodResource {
        name: Some("empty-1".to_string()),
        namespace: Some("ns".to_string()),
        status: None,
        spec: Some(PodSpec { containers: vec![env_container("c", &[])] }),
    };
    let mut h = handler_with_pods("c1", vec![no_containers, empty_env]);
    for name in ["empty-0", "empty-1"] {
        let resp = expect_done(h.handle(Request::Env(EnvRequest {
            cluster: None,
            namespace: "ns".to_string(),
            pod: name.to_string(),
            container: None,
            filter_regex: None,
        })));
        assert_eq!(resp, Response::EnvVars { vars: vec![] });
    }
}

#[test]
fn env_of_absent_pod_is_an_error() {
    let mut h = handler_with_pods("c1", vec![]);
    let resp = expect_done(h.handle(Request::Env(EnvRequest {
        cluster: None,
        namespace: "ns".to_string(),
        pod: "ghost".to_string(),
        container: None,
        filter_regex: None,
    })));
    assert_eq!(resp, Response::Error { message: "pod ns/ghost not found".to_string() });
}

#[test]
fn env_of_pod_without_a_spec_is_empty_not_an_error() {
    // a pod that declares no spec declares no containers
    let p = PodResource {
        name: Some("bare".to_string()),
        namespace: Some("ns".to_string()),
        status: None,
        spec: None,
    };
    let mut h = handler_with_pods("c1", vec![p]);
    let resp = expect_done(h.handle(Request::Env(EnvRequest {
        cluster: None,
        namespace: "ns".to_string(),
        pod: "bare".to_string(),
        container: None,
        filter_regex: None,
    })));
    assert_eq!(resp, Response::EnvVars { vars: vec![] });
}

fn login_request(profile: &str) -> LoginRequest {
    LoginRequest {
        name: profile.to_string(),
        region: Some("us-east-1".to_string()),
        account_id: "123456789012".to_string(),
        role_name: "Admin".to_string(),
        access_key_id: "AKIA".to_string(),
        secret_access_key: "SECRET-REDACTED".to_string(),
        session_token: "tok".to_string(),
        expires_at_epoch_ms: 1_700_000_000_000,
    }
}

#[test]
fn login_stores_the_session_and_asks_for_an_attach() {
    let mut h = Handler::new(DaemonState::new("c1".to_string(), version_info()));
    match h.handle(Request::Login(login_request("dev"))) {
        HandleOutcome::NeedAttach { profile } => assert_eq!(profile, "dev"),
        HandleOutcome::Done(resp) => panic!("unexpected reply: {resp:?}"),
    }
    let stored = h.state().get_session("dev").expect("session must be stored");
    assert_eq!(stored.account_id, "123456789012");
    assert_eq!(stored.role_name, "Admin");
    assert_eq!(stored.expires_at_epoch_ms, 1_700_000_000_000);
}

#[test]
fn later_login_supersedes_the_stored_session() {
    let mut h = Handler::new(DaemonState::new("c1".to_string(), version_info()));
    h.handle(Request::Login(login_request("dev")));
    let mut second = login_request("dev");
    second.role_name = "ReadOnly".to_string();
    h.handle(Request::Login(second));
    let stored = h.state().get_session("dev").unwrap();
    assert_eq!(stored.role_name, "ReadOnly");
}

#[test]
fn successful_attach_registers_the_cluster_and_reports_ok() {
    let mut h = Handler::new(DaemonState::new("c1".to_string(), version_info()));
    h.handle(Request::Login(login_request("dev")));
    let cs = ClusterState::new("eks-platform-dev".to_string(), PodStore::new());
    let resp = h.complete_login("dev", Ok(cs));
    assert_eq!(resp, Response::LoginOk);
    assert!(h.state().get_cluster("eks-platform-dev").is_some());
}

#[test]
fn failed_attach_reports_stored_session_and_the_failure() {
    let mut h = Handler::new(DaemonState::new("c1".to_string(), version_info()));
    h.handle(Request::Login(login_request("dev")));
    let resp = h.complete_login("dev", Err("no such cluster".to_string()));
    assert_eq!(
        resp,
        Response::Error {
            message: "stored session but failed to start clusters for profile dev: no such cluster"
                .to_string()
        }
    );
    assert!(h.state().get_session("dev").is_some());
    assert!(h.state().get_cluster("eks-platform-dev").is_none());
}

#[test]
fn run_serves_requests_in_order_and_consumes_attaches() {
    let mut h = handler_with_pods("c1", vec![pod("ns", "a", Some("Running"))]);
    let requests = vec![
        Request::Ping,
        Request::Login(login_request("dev")),
        Request::Pods(PodsRequest { cluster: None, namespace: None, failed_only: false }),
    ];
    let attaches = vec![Ok(ClusterState::new("c2".to_string(), PodStore::new()))];
    let responses = run(&mut h, requests, attaches);
    assert_eq!(responses.len(), 3);
    assert_eq!(responses[0], Response::Pong);
    assert_eq!(responses[1], Response::LoginOk);
    match &responses[2] {
        Response::Pods { pods } => assert_eq!(pods.len(), 1),
        other => panic!("wrong variant: {other:?}"),
    }
    assert!(h.state().get_cluster("c2").is_some());
}

#[test]
fn config_load_assembles_and_resolves_default_cluster() {
    let cfg = load(
        KopsSection { default_cluster: None },
        None,
        vec![ClusterConfig {
            name: "first".to_string(),
            kubeconfig: None,
            context: None,
            namespaces: None,
        }],
    );
    assert_eq!(cfg.default_cluster_name().as_deref(), Some("first"));

    let cfg2 = load(
        KopsSection { default_cluster: Some("chosen".to_string()) },
        None,
        vec![],
    );
    assert_eq!(cfg2.default_cluster_name().as_deref(), Some("chosen"));

    let cfg3 = load(KopsSection { default_cluster: None }, None, vec![]);
    assert_eq!(cfg3.default_cluster_name(), None);
}
