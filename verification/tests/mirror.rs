use kops::mirror::{ClusterState, PodStore, WatchEvent};
use kops::pod::{PodResource, PodStatus};

fn pod(namespace: &str, name: &str, phase: &str) -> PodResource {
    PodResource {
        name: Some(name.to_string()),
        namespace: Some(namespace.to_string()),
        status: Some(PodStatus {
            phase: Some(phase.to_string()),
            conditions: None,
            container_statuses: None,
        }),
        spec: None,
    }
}

fn names(store: &PodStore) -> Vec<(String, String)> {
    store
        .state()
        .iter()
        .map(|p| (p.namespace.clone().unwrap(), p.name.clone().unwrap()))
        .collect()
}

#[test]
fn apply_inserts_and_updates_by_key() {
    let mut store = PodStore::new();
    store.apply(WatchEvent::Apply(pod("ns", "a", "Pending")));
    store.apply(WatchEvent::Apply(pod("ns", "b", "Running")));
    assert_eq!(store.len(), 2);

    // same key: the pod is replaced in place, not duplicated
    store.apply(WatchEvent::Apply(pod("ns", "a", "Running")));
    assert_eq!(store.len(), 2);
    let a = store.find_pod("ns", "a").unwrap();
    assert_eq!(a.status.unwrap().phase.as_deref(), Some("Running"));
    assert_eq!(names(&store), vec![("ns".into(), "a".into()), ("ns".into(), "b".into())]);
}

#[test]
fn delete_removes_only_the_keyed_pod() {
    let mut store = PodStore::new();
    store.apply(WatchEvent::Apply(pod("ns", "a", "Running")));
    store.apply(WatchEvent::Apply(pod("other", "a", "Running")));
    store.apply(WatchEvent::Delete { namespace: "ns".to_string(), name: "a".to_string() });
    assert_eq!(names(&store), vec![("other".into(), "a".into())]);

    // deleting an absent key changes nothing
    store.apply(WatchEvent::Delete { namespace: "ns".to_string(), name: "ghost".to_string() });
    assert_eq!(store.len(), 1);
}

#[test]
fn resync_replaces_the_mirror_wholesale() {
    let mut store = PodStore::new();
    store.apply(WatchEvent::Apply(pod("stale", "old", "Running")));
    store.apply(WatchEvent::Resync(vec![
        pod("fresh", "one", "Running"),
        pod("fresh", "two", "Pending"),
    ]));
    assert_eq!(
        names(&store),
        vec![("fresh".into(), "one".into()), ("fresh".into(), "two".into())]
    );
}

#[test]
fn pods_default_to_the_default_namespace() {
    let mut store = PodStore::new();
    store.apply(WatchEvent::Apply(PodResource {
        name: Some("nameless-ns".to_string()),
        namespace: None,
        status: None,
        spec: None,
    }));
    assert!(store.find_pod("default", "nameless-ns").is_some());
}

#[test]
fn apply_of_a_pod_without_a_name_is_ignored() {
    let mut store = PodStore::new();
    store.apply(WatchEvent::Apply(PodResource {
        name: None,
        namespace: Some("ns".to_string()),
        status: None,
        spec: None,
    }));
    assert_eq!(store.len(), 0);
}

#[test]
fn snapshots_reflect_whole_event_prefixes() {
    // apply a sequence one event at a time; after each event the
    // snapshot equals the fold of the prefix applied so far
    let events = vec![
        WatchEvent::Apply(pod("ns", "a", "Pending")),
        WatchEvent::Apply(pod("ns", "b", "Running")),
        WatchEvent::Apply(pod("ns", "a", "Running")),
        WatchEvent::Delete { namespace: "ns".to_string(), name: "b".to_string() },
    ];
    let mut live = PodStore::new();
    let mut snapshots = Vec::new();
    for ev in events {
        live.apply(ev);
        snapshots.push(live.state());
    }
    assert_eq!(snapshots[0].len(), 1);
    assert_eq!(snapshots[1].len(), 2);
    assert_eq!(snapshots[2].len(), 2);
    assert_eq!(
        snapshots[2][0].status.as_ref().unwrap().phase.as_deref(),
        Some("Running")
    );
    assert_eq!(snapshots[3].len(), 1);
    assert_eq!(snapshots[3][0].name.as_deref(), Some("a"));

    // an earlier snapshot is unaffected by later events
    assert_eq!(snapshots[1].len(), 2);
}

#[test]
fn apply_events_applies_in_order() {
    let mut store = PodStore::new();
    store.apply_events(vec![
        WatchEvent::Apply(pod("ns", "a", "Pending")),
        WatchEvent::Delete { namespace: "ns".to_string(), name: "a".to_string() },
        WatchEvent::Apply(pod("ns", "a", "Running")),
    ]);
    assert_eq!(store.len(), 1);
    let a = store.find_pod("ns", "a").unwrap();
    assert_eq!(a.status.unwrap().phase.as_deref(), Some("Running"));
}

#[test]
fn cluster_state_names_and_routes_events() {
    let mut cs = ClusterState::new("prod".to_string(), PodStore::new());
    assert_eq!(cs.name(), "prod");
    cs.apply(WatchEvent::Apply(pod("ns", "a", "Running")));
    assert_eq!(cs.store().len(), 1);
}
