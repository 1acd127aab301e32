use std::collections::HashSet;

use kops::pod::{
    ContainerSpec, ContainerStateDetail, ContainerStatus, PodCondition, PodResource, PodSpec,
    PodStatus,
};
use kops::protocol::{EnvEntry, PodSummary, VersionInfo};
use kops::state::DaemonState;

#[test]
fn from_pod_requires_a_name() {
    let nameless = PodResource { name: None, namespace: None, status: None, spec: None };
    assert!(PodSummary::from_pod("c", &nameless).is_none());
}

#[test]
fn from_pod_defaults_the_namespace() {
    let p = PodResource {
        name: Some("a".to_string()),
        namespace: None,
        status: None,
        spec: None,
    };
    let s = PodSummary::from_pod("c", &p).unwrap();
    assert_eq!(s.namespace, "default");
    assert_eq!(s.cluster, "c");
    assert_eq!(s.name, "a");
    assert_eq!(s.phase, None);
    assert_eq!(s.reason, None);
    assert_eq!(s.message, None);
    assert!(!s.ready);
    assert_eq!(s.restart_count, 0);
}

#[test]
fn readiness_requires_a_true_ready_condition() {
    let mk = |type_: &str, status: &str| PodCondition {
        type_: type_.to_string(),
        status: status.to_string(),
    };
    let p = |conds: Vec<PodCondition>| PodResource {
        name: Some("a".to_string()),
        namespace: Some("ns".to_string()),
        status: Some(PodStatus {
            phase: None,
            conditions: Some(conds),
            container_statuses: None,
        }),
        spec: None,
    };
    assert!(!PodSummary::from_pod("c", &p(vec![])).unwrap().ready);
    assert!(!PodSummary::from_pod("c", &p(vec![mk("Ready", "False")])).unwrap().ready);
    assert!(!PodSummary::from_pod("c", &p(vec![mk("Initialized", "True")])).unwrap().ready);
    assert!(
        PodSummary::from_pod("c", &p(vec![mk("Initialized", "True"), mk("Ready", "True")]))
            .unwrap()
            .ready
    );
}

fn status_with(statuses: Vec<ContainerStatus>) -> PodResource {
    PodResource {
        name: Some("a".to_string()),
        namespace: Some("ns".to_string()),
        status: Some(PodStatus {
            phase: None,
            conditions: None,
            container_statuses: Some(statuses),
        }),
        spec: None,
    }
}

#[test]
fn restart_counts_sum_across_containers() {
    let p = status_with(vec![
        ContainerStatus { restart_count: 2, waiting: None, terminated: None },
        ContainerStatus { restart_count: 5, waiting: None, terminated: None },
    ]);
    assert_eq!(PodSummary::from_pod("c", &p).unwrap().restart_count, 7);
}

#[test]
fn restart_count_sum_saturates_instead_of_wrapping() {
    let p = status_with(vec![
        ContainerStatus { restart_count: i32::MAX, waiting: None, terminated: None },
        ContainerStatus { restart_count: 1, waiting: None, terminated: None },
    ]);
    assert_eq!(PodSummary::from_pod("c", &p).unwrap().restart_count, i32::MAX);
}

#[test]
fn last_container_with_state_detail_wins() {
    let waiting = |reason: &str| ContainerStatus {
        restart_count: 0,
        waiting: Some(ContainerStateDetail {
            reason: Some(reason.to_string()),
            message: Some(format!("{reason} message")),
        }),
        terminated: None,
    };
    let p = status_with(vec![waiting("First"), waiting("Second")]);
    let s = PodSummary::from_pod("c", &p).unwrap();
    assert_eq!(s.reason.as_deref(), Some("Second"));
    assert_eq!(s.message.as_deref(), Some("Second message"));
}

#[test]
fn terminated_detail_overwrites_waiting_detail_of_the_same_container() {
    let both = ContainerStatus {
        restart_count: 0,
        waiting: Some(ContainerStateDetail {
            reason: Some("Waiting".to_string()),
            message: None,
        }),
        terminated: Some(ContainerStateDetail {
            reason: Some("OOMKilled".to_string()),
            message: Some("killed".to_string()),
        }),
    };
    let p = status_with(vec![both]);
    let s = PodSummary::from_pod("c", &p).unwrap();
    assert_eq!(s.reason.as_deref(), Some("OOMKilled"));
    assert_eq!(s.message.as_deref(), Some("killed"));
}

#[test]
fn a_later_empty_detail_still_overwrites() {
    // the second container has a waiting state with no reason: the
    // pair is overwritten to nothing, not kept from the first
    let first = ContainerStatus {
        restart_count: 0,
        waiting: Some(ContainerStateDetail {
            reason: Some("Early".to_string()),
            message: Some("early".to_string()),
        }),
        terminated: None,
    };
    let second = ContainerStatus {
        restart_count: 0,
        waiting: Some(ContainerStateDetail { reason: None, message: None }),
        terminated: None,
    };
    let p = status_with(vec![first, second]);
    let s = PodSummary::from_pod("c", &p).unwrap();
    assert_eq!(s.reason, None);
    assert_eq!(s.message, None);
}

#[test]
fn sessions_are_stored_and_superseded_by_profile() {
    let mut state = DaemonState::new(
        "c1".to_string(),
        VersionInfo {
            daemon_version: "0".to_string(),
            protocol_version: "1".to_string(),
            git_sha: None,
            build_date: None,
        },
    );
    assert!(state.get_session("dev").is_none());
    let mk = |role: &str| kops::state::AwsSession {
        account_id: "acct".to_string(),
        role_name: role.to_string(),
        region: None,
        access_key_id: "ak".to_string(),
        secret_access_key: "sk".to_string(),
        session_token: "st".to_string(),
        expires_at_epoch_ms: 0,
    };
    state.put_session("dev".to_string(), mk("Admin"));
    state.put_session("prod".to_string(), mk("ReadOnly"));
    assert_eq!(state.get_session("dev").unwrap().role_name, "Admin");
    assert_eq!(state.get_session("prod").unwrap().role_name, "ReadOnly");
    state.put_session("dev".to_string(), mk("Operator"));
    assert_eq!(state.get_session("dev").unwrap().role_name, "Operator");
    assert_eq!(state.aws_sessions.len(), 2);
}

#[test]
fn collect_env_keeps_declaration_order() {
    let spec = PodSpec {
        containers: vec![
            ContainerSpec {
                name: "one".to_string(),
                env: vec![EnvEntry { name: "Z".to_string(), value: Some("26".to_string()) }],
            },
            ContainerSpec {
                name: "two".to_string(),
                env: vec![EnvEntry { name: "A".to_string(), value: None }],
            },
        ],
    };
    let vars = kops::pod::collect_env(&spec);
    assert_eq!(
        vars,
        vec![
            EnvEntry { name: "Z".to_string(), value: Some("26".to_string()) },
            EnvEntry { name: "A".to_string(), value: None },
        ]
    );
}

#[test]
fn pod_keys_identify_pods_across_clusters() {
    let key = |cluster: &str, namespace: &str, name: &str| kops::protocol::PodKey {
        cluster: cluster.to_string(),
        namespace: namespace.to_string(),
        name: name.to_string(),
    };
    let mut seen = HashSet::new();
    assert!(seen.insert(key("c1", "ns", "a")));
    assert!(seen.insert(key("c2", "ns", "a")));
    assert!(seen.insert(key("c1", "other", "a")));
    // the same identity again is not a new pod
    assert!(!seen.insert(key("c1", "ns", "a")));
    assert_eq!(seen.len(), 3);
}
