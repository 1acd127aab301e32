use kops::codec::{decode_request, decode_response, encode_request, encode_response};
use kops::protocol::{
    EnvEntry, EnvRequest, LoginRequest, PodSummary, PodsRequest, Request, Response, VersionInfo,
};
use kops::wire::WireError;

fn request_round_trip(req: Request) -> Request {
    let bytes = encode_request(&req).expect("encoding must succeed");
    decode_request(&bytes).expect("decoding must succeed")
}

fn response_round_trip(resp: Response) -> Response {
    let bytes = encode_response(&resp).expect("encoding must succeed");
    decode_response(&bytes).expect("decoding must succeed")
}

#[test]
fn ping_encodes_to_single_tag_byte() {
    let bytes = encode_request(&Request::Ping).unwrap();
    assert_eq!(bytes, vec![0u8]);
}

#[test]
fn round_trip_ping_and_version_requests() {
    assert_eq!(request_round_trip(Request::Ping), Request::Ping);
    assert_eq!(request_round_trip(Request::Version), Request::Version);
}

#[test]
fn round_trip_pods_request_all_none() {
    let req = Request::Pods(PodsRequest { cluster: None, namespace: None, failed_only: false });
    let back = request_round_trip(req);
    assert_eq!(
        back,
        Request::Pods(PodsRequest { cluster: None, namespace: None, failed_only: false })
    );
}

#[test]
fn round_trip_pods_request_with_fields() {
    let req = Request::Pods(PodsRequest {
        cluster: Some("prod".to_string()),
        namespace: Some("observability".to_string()),
        failed_only: true,
    });
    let back = request_round_trip(req);
    assert_eq!(
        back,
        Request::Pods(PodsRequest {
            cluster: Some("prod".to_string()),
            namespace: Some("observability".to_string()),
            failed_only: true,
        })
    );
}

#[test]
fn round_trip_env_request() {
    let req = Request::Env(EnvRequest {
        cluster: None,
        namespace: "default".to_string(),
        pod: "api-0".to_string(),
        container: Some("api".to_string()),
        filter_regex: None,
    });
    let back = request_round_trip(req);
    match back {
        Request::Env(e) => {
            assert_eq!(e.cluster, None);
            assert_eq!(e.namespace, "default");
            assert_eq!(e.pod, "api-0");
            assert_eq!(e.container.as_deref(), Some("api"));
            assert_eq!(e.filter_regex, None);
        }
        other => panic!("wrong variant: {other:?}"),
    }
}

#[test]
fn round_trip_login_request_with_negative_expiry() {
    let req = Request::Login(LoginRequest {
        name: "dev".to_string(),
        region: Some("us-east-1".to_string()),
        account_id: "123456789012".to_string(),
        role_name: "Admin".to_string(),
        access_key_id: "AKIA".to_string(),
        secret_access_key: "SECRET-REDACTED".to_string(),
        session_token: "tok".to_string(),
        expires_at_epoch_ms: -42,
    });
    let back = request_round_trip(req);
    match back {
        Request::Login(l) => {
            assert_eq!(l.name, "dev");
            assert_eq!(l.expires_at_epoch_ms, -42);
            assert_eq!(l.secret_access_key, "SECRET-REDACTED");
        }
        other => panic!("wrong variant: {other:?}"),
    }
}

#[test]
fn round_trip_simple_responses() {
    assert_eq!(response_round_trip(Response::Pong), Response::Pong);
    assert_eq!(response_round_trip(Response::LoginOk), Response::LoginOk);
    assert_eq!(
        response_round_trip(Response::Error { message: "boom".to_string() }),
        Response::Error { message: "boom".to_string() }
    );
}

#[test]
fn round_trip_version_response_all_none() {
    let resp = Response::Version(VersionInfo {
        daemon_version: "0.1.0".to_string(),
        protocol_version: "1".to_string(),
        git_sha: None,
        build_date: None,
    });
    let back = response_round_trip(resp);
    match back {
        Response::Version(v) => {
            assert_eq!(v.daemon_version, "0.1.0");
            assert_eq!(v.protocol_version, "1");
            assert_eq!(v.git_sha, None);
            assert_eq!(v.build_date, None);
        }
        other => panic!("wrong variant: {other:?}"),
    }
}

#[test]
fn round_trip_empty_lists() {
    assert_eq!(
        response_round_trip(Response::Pods { pods: vec![] }),
        Response::Pods { pods: vec![] }
    );
    assert_eq!(
        response_round_trip(Response::EnvVars { vars: vec![] }),
        Response::EnvVars { vars: vec![] }
    );
}

#[test]
fn round_trip_pod_list() {
    let pod = PodSummary {
        cluster: "prod".to_string(),
        namespace: "observability".to_string(),
        name: "api-0".to_string(),
        phase: Some("Running".to_string()),
        reason: None,
        message: Some("ok".to_string()),
        ready: true,
        restart_count: -3,
    };
    let resp = Response::Pods { pods: vec![pod] };
    let back = response_round_trip(resp);
    match back {
        Response::Pods { pods } => {
            assert_eq!(pods.len(), 1);
            assert_eq!(pods[0].cluster, "prod");
            assert_eq!(pods[0].namespace, "observability");
            assert_eq!(pods[0].name, "api-0");
            assert_eq!(pods[0].phase.as_deref(), Some("Running"));
            assert_eq!(pods[0].reason, None);
            assert_eq!(pods[0].message.as_deref(), Some("ok"));
            assert!(pods[0].ready);
            assert_eq!(pods[0].restart_count, -3);
        }
        other => panic!("wrong variant: {other:?}"),
    }
}

#[test]
fn round_trip_env_vars_list() {
    let resp = Response::EnvVars {
        vars: vec![
            EnvEntry { name: "A".to_string(), value: Some("1".to_string()) },
            EnvEntry { name: "B".to_string(), value: None },
        ],
    };
    let back = response_round_trip(resp);
    match back {
        Response::EnvVars { vars } => {
            assert_eq!(vars.len(), 2);
            assert_eq!(vars[0].name, "A");
            assert_eq!(vars[0].value.as_deref(), Some("1"));
            assert_eq!(vars[1].name, "B");
            assert_eq!(vars[1].value, None);
        }
        other => panic!("wrong variant: {other:?}"),
    }
}

#[test]
fn round_trip_keeps_non_ascii_text() {
    let resp = Response::Error { message: "pöd nøt føund — 確認".to_string() };
    assert_eq!(
        response_round_trip(resp),
        Response::Error { message: "pöd nøt føund — 確認".to_string() }
    );
}

#[test]
fn decode_rejects_empty_payload() {
    assert!(matches!(decode_request(&[]), Err(WireError::Decode { .. })));
    assert!(matches!(decode_response(&[]), Err(WireError::Decode { .. })));
}

#[test]
fn decode_rejects_unknown_tag() {
    assert!(matches!(decode_request(&[9u8]), Err(WireError::Decode { .. })));
    assert!(matches!(decode_response(&[9u8]), Err(WireError::Decode { .. })));
}

#[test]
fn decode_rejects_truncated_message() {
    let full = encode_request(&Request::Pods(PodsRequest {
        cluster: Some("prod".to_string()),
        namespace: None,
        failed_only: false,
    }))
    .unwrap();
    let truncated = &full[..full.len() - 1];
    assert!(decode_request(truncated).is_err());
}

#[test]
fn decode_rejects_invalid_utf8_in_string() {
    // tag 4 (error response), string length 2, bytes that are not UTF-8
    let bytes = vec![4u8, 0, 0, 0, 2, 0xff, 0xfe];
    assert!(matches!(decode_response(&bytes), Err(WireError::Decode { .. })));
}

#[test]
fn decode_tolerates_trailing_bytes() {
    let mut bytes = encode_request(&Request::Ping).unwrap();
    bytes.push(0xAA);
    assert_eq!(decode_request(&bytes).unwrap(), Request::Ping);
}
