use kops::order::{sort_env, sort_pods, str_lt};
use kops::protocol::{EnvEntry, PodSummary};

fn entry(name: &str, value: Option<&str>) -> EnvEntry {
    EnvEntry { name: name.to_string(), value: value.map(|v| v.to_string()) }
}

#[test]
fn string_order_is_lexicographic_by_code_point() {
    assert!(str_lt("a", "b"));
    assert!(!str_lt("b", "a"));
    assert!(!str_lt("a", "a"));
    assert!(str_lt("a", "ab"));
    assert!(!str_lt("ab", "a"));
    assert!(str_lt("", "a"));
    assert!(str_lt("A", "a"));
    assert!(str_lt("kube-system", "observability"));
}

#[test]
fn env_entries_sort_by_name_then_value_with_none_first() {
    let sorted = sort_env(vec![
        entry("B", Some("2")),
        entry("A", Some("1")),
        entry("A", None),
        entry("A", Some("0")),
    ]);
    assert_eq!(
        sorted,
        vec![
            entry("A", None),
            entry("A", Some("0")),
            entry("A", Some("1")),
            entry("B", Some("2")),
        ]
    );
}

#[test]
fn equal_entries_survive_sorting_in_full() {
    let sorted = sort_env(vec![entry("A", Some("1")), entry("A", Some("1"))]);
    assert_eq!(sorted, vec![entry("A", Some("1")), entry("A", Some("1"))]);
}

fn summary(namespace: &str, name: &str) -> PodSummary {
    PodSummary {
        cluster: "c".to_string(),
        namespace: namespace.to_string(),
        name: name.to_string(),
        phase: None,
        reason: None,
        message: None,
        ready: false,
        restart_count: 0,
    }
}

#[test]
fn pods_sort_by_namespace_then_name() {
    let sorted = sort_pods(vec![
        summary("b", "x"),
        summary("a", "y"),
        summary("a", "x"),
        summary("", "z"),
    ]);
    let keys: Vec<(String, String)> =
        sorted.iter().map(|p| (p.namespace.clone(), p.name.clone())).collect();
    assert_eq!(
        keys,
        vec![
            ("".to_string(), "z".to_string()),
            ("a".to_string(), "x".to_string()),
            ("a".to_string(), "y".to_string()),
            ("b".to_string(), "x".to_string()),
        ]
    );
}
