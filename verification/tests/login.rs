use kops::handler::{HandleOutcome, Handler};
use kops::mirror::{ClusterState, PodStore};
use kops::protocol::{LoginRequest, Request, VersionInfo};
use kops::state::DaemonState;

use kops::login::{
    classify_poll_error, must, run_device_poll, session_from_role_credentials, start_device_flow,
    validate_client_registration, DeviceAuthorization, PollClass, PollOutcome, PollState,
    PollStep,
};

fn pending() -> PollOutcome {
    PollOutcome::Failure {
        code: "AuthorizationPendingException".to_string(),
        message: "pending".to_string(),
    }
}

fn token(t: &str) -> PollOutcome {
    PollOutcome::Token { access_token: Some(t.to_string()) }
}

#[test]
fn must_unwraps_or_names_the_missing_field() {
    assert_eq!(must(Some("v"), "device_code"), Ok("v".to_string()));
    assert_eq!(must(None, "device_code"), Err("missing device_code".to_string()));
}

#[test]
fn registration_requires_both_halves() {
    assert_eq!(
        validate_client_registration(None, Some("s")),
        Err("missing client_id from register_client".to_string())
    );
    assert_eq!(
        validate_client_registration(Some("i"), None),
        Err("missing client_secret from register_client".to_string())
    );
    assert_eq!(
        validate_client_registration(Some("i"), Some("s")),
        Ok(("i".to_string(), "s".to_string()))
    );
}

fn full_authorization() -> DeviceAuthorization {
    DeviceAuthorization {
        device_code: Some("dc".to_string()),
        user_code: Some("UC-1234".to_string()),
        verification_uri: Some("https://verify.example".to_string()),
        verification_uri_complete: Some("https://verify.example?code=UC-1234".to_string()),
        interval: 5,
        expires_in: 600,
    }
}

#[test]
fn device_flow_start_uses_the_complete_uri() {
    let start = start_device_flow(&full_authorization()).unwrap();
    assert_eq!(start.device_code, "dc");
    assert_eq!(start.interval_secs, 5);
    assert_eq!(start.expires_in, 600);
    assert_eq!(start.verification.user_code, "UC-1234");
    assert_eq!(start.verification.verification_uri, "https://verify.example?code=UC-1234");
    assert_eq!(
        start.verification.verification_uri_complete.as_deref(),
        Some("https://verify.example?code=UC-1234")
    );
}

#[test]
fn device_flow_start_requires_the_complete_uri_even_with_a_plain_one() {
    let mut auth = full_authorization();
    auth.verification_uri_complete = None;
    assert_eq!(start_device_flow(&auth), Err("missing verification URI".to_string()));
}

#[test]
fn device_flow_start_names_other_missing_fields() {
    let mut auth = full_authorization();
    auth.device_code = None;
    assert_eq!(start_device_flow(&auth), Err("missing device_code".to_string()));
    let mut auth = full_authorization();
    auth.user_code = None;
    assert_eq!(start_device_flow(&auth), Err("missing user_code".to_string()));
}

#[test]
fn poll_classification_matches_broker_codes() {
    assert_eq!(classify_poll_error("AuthorizationPendingException"), PollClass::Pending);
    assert_eq!(classify_poll_error("SlowDownException"), PollClass::SlowDown);
    assert_eq!(classify_poll_error("ExpiredTokenException"), PollClass::Expired);
    assert_eq!(classify_poll_error("Throttling"), PollClass::Other);
}

#[test]
fn attempt_bound_is_window_over_interval_plus_one() {
    let st = PollState::new(600, 5);
    assert_eq!(st.attempts_remaining, 121);
    assert_eq!(st.interval_secs, 5);
}

#[test]
fn pending_keeps_the_interval_and_costs_an_attempt() {
    let st = PollState { interval_secs: 5, attempts_remaining: 3 };
    match kops::login::poll_step(st, pending()) {
        PollStep::Sleep { seconds, next } => {
            assert_eq!(seconds, 5);
            assert_eq!(next.interval_secs, 5);
            assert_eq!(next.attempts_remaining, 2);
        }
        other => panic!("wrong step: {other:?}"),
    }
}

#[test]
fn slow_down_lengthens_the_interval_by_five() {
    let st = PollState { interval_secs: 5, attempts_remaining: 3 };
    let slow = PollOutcome::Failure {
        code: "SlowDownException".to_string(),
        message: "slow down".to_string(),
    };
    match kops::login::poll_step(st, slow) {
        PollStep::Sleep { seconds, next } => {
            assert_eq!(seconds, 10);
            assert_eq!(next.interval_secs, 10);
            assert_eq!(next.attempts_remaining, 2);
        }
        other => panic!("wrong step: {other:?}"),
    }
}

#[test]
fn expiry_and_other_errors_are_terminal() {
    let st = PollState { interval_secs: 5, attempts_remaining: 3 };
    let expired = PollOutcome::Failure {
        code: "ExpiredTokenException".to_string(),
        message: "too late".to_string(),
    };
    match kops::login::poll_step(st, expired) {
        PollStep::Fail { message } => {
            assert_eq!(
                message,
                "Device authorization expired (ExpiredTokenException): too late"
            );
        }
        other => panic!("wrong step: {other:?}"),
    }
    let other = PollOutcome::Failure {
        code: "Throttling".to_string(),
        message: "try later".to_string(),
    };
    match kops::login::poll_step(st, other) {
        PollStep::Fail { message } => {
            assert_eq!(message, "CreateToken failed: Throttling: try later");
        }
        other => panic!("wrong step: {other:?}"),
    }
}

#[test]
fn pending_pending_token_succeeds() {
    let st = PollState::new(600, 5);
    let result = run_device_poll(st, vec![pending(), pending(), token("the-token")]);
    assert_eq!(result, Ok("the-token".to_string()));
}

#[test]
fn success_without_a_token_is_the_timeout_failure() {
    let st = PollState::new(600, 5);
    let result = run_device_poll(
        st,
        vec![PollOutcome::Token { access_token: None }],
    );
    assert_eq!(result, Err("did not obtain access_token before timeout".to_string()));
}

#[test]
fn exhausted_attempts_are_the_timeout_failure() {
    let st = PollState { interval_secs: 5, attempts_remaining: 2 };
    let result = run_device_poll(st, vec![pending(), pending(), token("late")]);
    assert_eq!(result, Err("did not obtain access_token before timeout".to_string()));
}

#[test]
fn role_credentials_build_the_session_or_name_the_missing_half() {
    assert_eq!(
        session_from_role_credentials("acct", "role", None, Some("sk"), Some("st"), 0),
        Err("missing accessKeyId".to_string())
    );
    assert_eq!(
        session_from_role_credentials("acct", "role", Some("ak"), None, Some("st"), 0),
        Err("missing secretAccessKey".to_string())
    );
    assert_eq!(
        session_from_role_credentials("acct", "role", Some("ak"), Some("sk"), None, 0),
        Err("missing sessionToken".to_string())
    );
    let s = session_from_role_credentials(
        "acct",
        "role",
        Some("ak"),
        Some("sk"),
        Some("st"),
        1_700_000_000_000,
    )
    .unwrap();
    assert_eq!(s.account_id, "acct");
    assert_eq!(s.role_name, "role");
    assert_eq!(s.access_key_id, "ak");
    assert_eq!(s.expires_at_epoch_ms, 1_700_000_000_000);
}

#[test]
fn device_flow_login_attaches_one_matching_cluster() {
    // the poll yields a token, the exchange yields a session whose
    // account and role match the request, and the login then attaches
    // exactly one mirror with the requested cluster identity
    let st = PollState::new(600, 5);
    let tok = run_device_poll(st, vec![pending(), pending(), token("access")]).unwrap();
    assert_eq!(tok, "access");

    let session = session_from_role_credentials(
        "123456789012",
        "Admin",
        Some("ak"),
        Some("sk"),
        Some("st"),
        1_700_000_000_000,
    )
    .unwrap();
    assert_eq!(session.account_id, "123456789012");
    assert_eq!(session.role_name, "Admin");

    let mut h = Handler::new(DaemonState::new(
        "eks-platform-dev".to_string(),
        VersionInfo {
            daemon_version: "0.1.0".to_string(),
            protocol_version: "1".to_string(),
            git_sha: None,
            build_date: None,
        },
    ));
    let outcome = h.handle(Request::Login(LoginRequest {
        name: "dev".to_string(),
        region: Some("us-east-1".to_string()),
        account_id: session.account_id.clone(),
        role_name: session.role_name.clone(),
        access_key_id: session.access_key_id.clone(),
        secret_access_key: session.secret_access_key.clone(),
        session_token: session.session_token.clone(),
        expires_at_epoch_ms: session.expires_at_epoch_ms,
    }));
    let profile = match outcome {
        HandleOutcome::NeedAttach { profile } => profile,
        HandleOutcome::Done(resp) => panic!("unexpected reply: {resp:?}"),
    };
    let resp = h.complete_login(
        &profile,
        Ok(ClusterState::new("eks-platform-dev".to_string(), PodStore::new())),
    );
    assert_eq!(resp, kops::protocol::Response::LoginOk);
    assert!(h.state().get_cluster("eks-platform-dev").is_some());
    assert_eq!(h.state().clusters.len(), 1);
    let stored = h.state().get_session("dev").unwrap();
    assert_eq!(stored.account_id, "123456789012");
    assert_eq!(stored.role_name, "Admin");
}
