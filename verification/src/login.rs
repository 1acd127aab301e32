//! The device-flow login state machine: client registration, device
//! authorization, the bounded token-polling loop, and the exchange of
//! the obtained token for role credentials.
//!
//! The broker calls themselves happen outside the library; each reply
//! comes back as plain values, and every decision taken on them —
//! field validation, error classification, the polling schedule and
//! its bound — is verified here.

use vstd::prelude::*;

use crate::protocol::opt_string_view;

verus! {

/// What a login invocation is configured with.
#[derive(Debug, PartialEq, Eq)]
pub struct SsoLoginConfig {
    pub region: String,
    pub start_url: String,
    pub account_id: String,
    pub role_name: String,
    pub client_name: String,
}

/// What the human needs to authorize the login out of band.
#[derive(Debug, PartialEq, Eq)]
pub struct DeviceVerificationInfo {
    pub user_code: String,
    pub verification_uri: String,
    pub verification_uri_complete: Option<String>,
    pub expires_in: u64,
}

/// The session a completed login yields: role credentials with the
/// account and role they belong to and their advisory expiry.
#[derive(Debug, PartialEq, Eq)]
pub struct AwsSsoSession {
    pub access_key_id: String,
    pub secret_access_key: String,
    pub session_token: String,
    pub account_id: String,
    pub role_name: String,
    pub expires_at_epoch_ms: i64,
}

/// Unwraps a field the broker owed, or says which one is missing.
pub fn must(v: Option<&str>, name: &str) -> (r: Result<String, String>)
    ensures
        match v {
            Some(s) => r matches Ok(x) && x@ == s@,
            None => r matches Err(m) && m@ == "missing "@ + name@,
        },
{
    match v {
        Some(s) => Ok(s.to_owned()),
        None => Err(String::from_str("missing ").concat(name)),
    }
}

/// Checks a client registration reply: both halves of the client pair
/// are owed.
pub fn validate_client_registration(client_id: Option<&str>, client_secret: Option<&str>) -> (r:
    Result<(String, String), String>)
    ensures
        match (client_id, client_secret) {
            (None, _) => r matches Err(m) && m@ == "missing client_id from register_client"@,
            (Some(_), None) => r matches Err(m) && m@
                == "missing client_secret from register_client"@,
            (Some(i), Some(s)) => r matches Ok(pair) && pair.0@ == i@ && pair.1@ == s@,
        },
{
    let id = match client_id {
        Some(i) => i.to_owned(),
        None => {
            return Err(String::from_str("missing client_id from register_client"));
        },
    };
    let secret = match client_secret {
        Some(s) => s.to_owned(),
        None => {
            return Err(String::from_str("missing client_secret from register_client"));
        },
    };
    Ok((id, secret))
}

/// A device-authorization reply, as plain values.
#[derive(Debug, PartialEq, Eq)]
pub struct DeviceAuthorization {
    pub device_code: Option<String>,
    pub user_code: Option<String>,
    pub verification_uri: Option<String>,
    pub verification_uri_complete: Option<String>,
    pub interval: i32,
    pub expires_in: i32,
}

/// What starting the device flow yields: what to show the human, the
/// device code to poll with, and the polling parameters.
#[derive(Debug, PartialEq, Eq)]
pub struct DeviceFlowStart {
    pub verification: DeviceVerificationInfo,
    pub device_code: String,
    pub interval_secs: u64,
    pub expires_in: u64,
}

/// Checks a device-authorization reply and computes the polling
/// parameters.  The complete verification URI, the device code and the
/// user code are owed; the interval and validity window are carried
/// over as unsigned seconds.
pub fn start_device_flow(auth: &DeviceAuthorization) -> (r: Result<DeviceFlowStart, String>)
    ensures
        match opt_string_view(auth.verification_uri_complete) {
            None => r matches Err(m) && m@ == "missing verification URI"@,
            Some(uri) => match opt_string_view(auth.device_code) {
                None => r matches Err(m) && m@ == "missing device_code"@,
                Some(code) => match opt_string_view(auth.user_code) {
                    None => r matches Err(m) && m@ == "missing user_code"@,
                    Some(user) => {
                        &&& r matches Ok(s)
                        &&& s.verification.user_code@ == user
                        &&& s.verification.verification_uri@ == uri
                        &&& opt_string_view(s.verification.verification_uri_complete) == Some(uri)
                        &&& s.verification.expires_in == auth.expires_in as u64
                        &&& s.device_code@ == code
                        &&& s.interval_secs == auth.interval as u64
                        &&& s.expires_in == auth.expires_in as u64
                    },
                },
            },
        },
{
    let uri = match &auth.verification_uri_complete {
        Some(u) => u.clone(),
        None => {
            return Err(String::from_str("missing verification URI"));
        },
    };
    let device_code = match &auth.device_code {
        Some(c) => c.clone(),
        None => {
            return Err(String::from_str("missing device_code"));
        },
    };
    let user_code = match &auth.user_code {
        Some(c) => c.clone(),
        None => {
            return Err(String::from_str("missing user_code"));
        },
    };
    let interval_secs = #[verifier::truncate] (auth.interval as u64);
    let expires_in = #[verifier::truncate] (auth.expires_in as u64);
    Ok(
        DeviceFlowStart {
            verification: DeviceVerificationInfo {
                user_code,
                verification_uri: uri.clone(),
                verification_uri_complete: Some(uri),
                expires_in,
            },
            device_code,
            interval_secs,
            expires_in,
        },
    )
}

// ---------------------------------------------------------------------
// The polling loop as a state machine.
// ---------------------------------------------------------------------
/// The state of the polling loop: the current interval and how many
/// token requests may still be made.
#[derive(Debug, PartialEq, Eq, Clone, Copy)]
pub struct PollState {
    pub interval_secs: u64,
    pub attempts_remaining: u64,
}

impl PollState {
    /// The loop's starting state.  The attempt bound is computed once,
    /// up front, as the validity window over the initial interval,
    /// plus one; because the interval can grow later, the bound is not
    /// a wall-clock bound.
    pub fn new(expires_in: u64, interval_secs: u64) -> (r: PollState)
        requires
            interval_secs > 0,
            expires_in < u64::MAX,
        ensures
            r.interval_secs == interval_secs,
            r.attempts_remaining == expires_in / interval_secs + 1,
    {
        PollState { interval_secs, attempts_remaining: expires_in / interval_secs + 1 }
    }
}

/// How the broker classified one failed token request.
#[derive(Debug, PartialEq, Eq, Clone, Copy)]
pub enum PollClass {
    /// The human has not finished authorizing yet.
    Pending,
    /// The broker asks for a longer interval.
    SlowDown,
    /// The device authorization expired.
    Expired,
    /// Any other failure.
    Other,
}

/// Classifies a broker error code.
pub open spec fn spec_classify(code: Seq<char>) -> PollClass {
    if code == "AuthorizationPendingException"@ {
        PollClass::Pending
    } else if code == "SlowDownException"@ {
        PollClass::SlowDown
    } else if code == "ExpiredTokenException"@ {
        PollClass::Expired
    } else {
        PollClass::Other
    }
}

/// Classifies a broker error code by its name.
pub fn classify_poll_error(code: &str) -> (r: PollClass)
    ensures
        r == spec_classify(code@),
{
    let code_s = code.to_owned();
    if code_s.eq(&String::from_str("AuthorizationPendingException")) {
        PollClass::Pending
    } else if code_s.eq(&String::from_str("SlowDownException")) {
        PollClass::SlowDown
    } else if code_s.eq(&String::from_str("ExpiredTokenException")) {
        PollClass::Expired
    } else {
        PollClass::Other
    }
}

/// The broker's reply to one token request, as plain values.
#[derive(Debug, PartialEq, Eq)]
pub enum PollOutcome {
    /// The request succeeded; the broker may still have omitted the
    /// token itself.
    Token { access_token: Option<String> },
    /// The request failed with this code and message.
    Failure { code: String, message: String },
}

pub ghost enum PollOutcomeV {
    Token { access_token: Option<Seq<char>> },
    Failure { code: Seq<char>, message: Seq<char> },
}

impl View for PollOutcome {
    type V = PollOutcomeV;

    open spec fn view(&self) -> PollOutcomeV {
        match self {
            PollOutcome::Token { access_token } => PollOutcomeV::Token {
                access_token: opt_string_view(*access_token),
            },
            PollOutcome::Failure { code, message } => PollOutcomeV::Failure {
                code: code@,
                message: message@,
            },
        }
    }
}

/// What the loop does after one token request.
#[derive(Debug, PartialEq, Eq)]
pub enum PollStep {
    /// Sleep this long, then request again from the next state.
    Sleep { seconds: u64, next: PollState },
    /// The token was obtained.
    Success { access_token: String },
    /// The login failed with this message.
    Fail { message: String },
}

pub ghost enum PollStepV {
    Sleep { seconds: u64, next: PollState },
    Success { access_token: Seq<char> },
    Fail { message: Seq<char> },
}

impl View for PollStep {
    type V = PollStepV;

    open spec fn view(&self) -> PollStepV {
        match self {
            PollStep::Sleep { seconds, next } => PollStepV::Sleep {
                seconds: *seconds,
                next: *next,
            },
            PollStep::Success { access_token } => PollStepV::Success {
                access_token: access_token@,
            },
            PollStep::Fail { message } => PollStepV::Fail { message: message@ },
        }
    }
}

/// The message of a login that never obtained a token.
pub open spec fn spec_timeout_message() -> Seq<char> {
    "did not obtain access_token before timeout"@
}

/// What one poll outcome does to the loop.  A successful request with
/// a token ends the loop; one without a token fails it.  A pending
/// authorization keeps the interval and costs an attempt; a slow-down
/// lengthens the interval by five seconds (saturating) and costs an
/// attempt; an expiry or any other error is terminal.
pub open spec fn spec_poll_step(st: PollState, outcome: PollOutcomeV) -> PollStepV {
    match outcome {
        PollOutcomeV::Token { access_token } => match access_token {
            Some(tok) => PollStepV::Success { access_token: tok },
            None => PollStepV::Fail { message: spec_timeout_message() },
        },
        PollOutcomeV::Failure { code, message } => match spec_classify(code) {
            PollClass::Pending => PollStepV::Sleep {
                seconds: st.interval_secs,
                next: PollState {
                    interval_secs: st.interval_secs,
                    attempts_remaining: (st.attempts_remaining - 1) as u64,
                },
            },
            PollClass::SlowDown => {
                let widened = if st.interval_secs + 5 <= u64::MAX {
                    (st.interval_secs + 5) as u64
                } else {
                    u64::MAX
                };
                PollStepV::Sleep {
                    seconds: widened,
                    next: PollState {
                        interval_secs: widened,
                        attempts_remaining: (st.attempts_remaining - 1) as u64,
                    },
                }
            },
            PollClass::Expired => PollStepV::Fail {
                message: "Device authorization expired (ExpiredTokenException): "@ + message,
            },
            PollClass::Other => PollStepV::Fail {
                message: "CreateToken failed: "@ + code + ": "@ + message,
            },
        },
    }
}

/// Takes one poll outcome in the current state.
pub fn poll_step(st: PollState, outcome: PollOutcome) -> (r: PollStep)
    requires
        st.attempts_remaining > 0,
    ensures
        r@ == spec_poll_step(st, outcome@),
{
    match outcome {
        PollOutcome::Token { access_token } => match access_token {
            Some(tok) => PollStep::Success { access_token: tok },
            None => PollStep::Fail {
                message: String::from_str("did not obtain access_token before timeout"),
            },
        },
        PollOutcome::Failure { code, message } => match classify_poll_error(code.as_str()) {
            PollClass::Pending => PollStep::Sleep {
                seconds: st.interval_secs,
                next: PollState {
                    interval_secs: st.interval_secs,
                    attempts_remaining: st.attempts_remaining - 1,
                },
            },
            PollClass::SlowDown => {
                let widened = if st.interval_secs <= u64::MAX - 5 {
                    st.interval_secs + 5
                } else {
                    u64::MAX
                };
                PollStep::Sleep {
                    seconds: widened,
                    next: PollState {
                        interval_secs: widened,
                        attempts_remaining: st.attempts_remaining - 1,
                    },
                }
            },
            PollClass::Expired => PollStep::Fail {
                message: String::from_str(
                    "Device authorization expired (ExpiredTokenException): ",
                ).concat(message.as_str()),
            },
            PollClass::Other => PollStep::Fail {
                message: String::from_str("CreateToken failed: ").concat(code.as_str()).concat(
                    ": ",
                ).concat(message.as_str()),
            },
        },
    }
}

/// The result of a whole polling run over a sequence of outcomes: the
/// access token, or the failure message.  A run that exhausts its
/// attempts, or its outcomes, fails with the timeout message.
pub open spec fn spec_run_poll(st: PollState, outcomes: Seq<PollOutcomeV>) -> Result<
    Seq<char>,
    Seq<char>,
>
    decreases outcomes.len(),
{
    if st.attempts_remaining == 0 {
        Err(spec_timeout_message())
    } else if outcomes.len() == 0 {
        Err(spec_timeout_message())
    } else {
        match spec_poll_step(st, outcomes[0]) {
            PollStepV::Success { access_token } => Ok(access_token),
            PollStepV::Fail { message } => Err(message),
            PollStepV::Sleep { seconds, next } => spec_run_poll(next, outcomes.drop_first()),
        }
    }
}

/// Runs the polling loop over a sequence of broker outcomes, one per
/// token request, in order.  The pauses themselves happen outside the
/// library, between the requests whose outcomes are handed in.
pub fn run_device_poll(initial: PollState, outcomes: Vec<PollOutcome>) -> (r: Result<
    String,
    String,
>)
    ensures
        match r {
            Ok(tok) => spec_run_poll(initial, outcomes@.map_values(|o: PollOutcome| o@)) == Ok::<
                Seq<char>,
                Seq<char>,
            >(tok@),
            Err(m) => spec_run_poll(initial, outcomes@.map_values(|o: PollOutcome| o@)) == Err::<
                Seq<char>,
                Seq<char>,
            >(m@),
        },
{
    let ghost outs_v = outcomes@.map_values(|o: PollOutcome| o@);
    let mut pending = outcomes;
    let mut st = initial;
    let mut k: usize = 0;
    let n = pending.len();
    assert(pending@.map_values(|o: PollOutcome| o@) =~= outs_v.skip(0));
    while k < n
        invariant
            k <= n,
            outs_v.len() == n,
            outs_v == outcomes@.map_values(|o: PollOutcome| o@),
            pending@.len() == n - k,
            pending@.map_values(|o: PollOutcome| o@) == outs_v.skip(k as int),
            spec_run_poll(initial, outs_v) == spec_run_poll(st, outs_v.skip(k as int)),
        decreases n - k,
    {
        if st.attempts_remaining == 0 {
            proof {
                assert(spec_run_poll(st, outs_v.skip(k as int)) == Err::<Seq<char>, Seq<char>>(
                    spec_timeout_message(),
                ));
            }
            return Err(String::from_str("did not obtain access_token before timeout"));
        }
        let ghost outs_before = pending@;
        let outcome = pending.remove(0);
        proof {
            assert(outcome == outs_before[0]);
            assert(outs_before.map_values(|o: PollOutcome| o@)[0] == outcome@);
            assert(outcome@ == outs_v[k as int]);
            assert(pending@ =~= outs_before.drop_first());
            assert forall|t: int| 0 <= t < pending@.len() implies pending@.map_values(
                |o: PollOutcome| o@,
            )[t] == #[trigger] outs_v.skip(k as int + 1)[t] by {
                assert(pending@[t] == outs_before[t + 1]);
                assert(outs_before.map_values(|o: PollOutcome| o@)[t + 1] == outs_v.skip(
                    k as int,
                )[t + 1]);
            }
            assert(pending@.map_values(|o: PollOutcome| o@) =~= outs_v.skip(k as int + 1));
            assert(outs_v.skip(k as int)[0] == outs_v[k as int]);
            assert(outs_v.skip(k as int).drop_first() =~= outs_v.skip(k as int + 1));
        }
        match poll_step(st, outcome) {
            PollStep::Success { access_token } => {
                return Ok(access_token);
            },
            PollStep::Fail { message } => {
                return Err(message);
            },
            PollStep::Sleep { seconds: _seconds, next } => {
                st = next;
                k = k + 1;
            },
        }
    }
    proof {
        assert(outs_v.skip(n as int) =~= Seq::<PollOutcomeV>::empty());
        assert(spec_run_poll(st, outs_v.skip(n as int)) == Err::<Seq<char>, Seq<char>>(
            spec_timeout_message(),
        ));
    }
    Err(String::from_str("did not obtain access_token before timeout"))
}

/// A poll that is answered "authorization pending" twice and then a
/// token succeeds with that token, whenever at least three attempts
/// remain: each pending reply costs one attempt and schedules a sleep
/// of the current interval, which pending replies do not change.
pub proof fn lemma_pending_pending_token(
    st: PollState,
    outcomes: Seq<PollOutcomeV>,
    tok: Seq<char>,
)
    requires
        st.attempts_remaining >= 3,
        outcomes.len() == 3,
        outcomes[0] matches PollOutcomeV::Failure { code, .. } && code
            == "AuthorizationPendingException"@,
        outcomes[1] matches PollOutcomeV::Failure { code, .. } && code
            == "AuthorizationPendingException"@,
        outcomes[2] == (PollOutcomeV::Token { access_token: Some(tok) }),
    ensures
        spec_run_poll(st, outcomes) == Ok::<Seq<char>, Seq<char>>(tok),
        spec_poll_step(st, outcomes[0]) == (PollStepV::Sleep {
            seconds: st.interval_secs,
            next: PollState {
                interval_secs: st.interval_secs,
                attempts_remaining: (st.attempts_remaining - 1) as u64,
            },
        }),
{
    let st1 = PollState {
        interval_secs: st.interval_secs,
        attempts_remaining: (st.attempts_remaining - 1) as u64,
    };
    let st2 = PollState {
        interval_secs: st.interval_secs,
        attempts_remaining: (st.attempts_remaining - 2) as u64,
    };
    assert(spec_poll_step(st, outcomes[0]) == (PollStepV::Sleep {
        seconds: st.interval_secs,
        next: st1,
    }));
    let rest1 = outcomes.drop_first();
    assert(spec_run_poll(st, outcomes) == spec_run_poll(st1, rest1));
    assert(rest1[0] == outcomes[1]);
    assert(spec_poll_step(st1, rest1[0]) == (PollStepV::Sleep {
        seconds: st.interval_secs,
        next: st2,
    }));
    let rest2 = rest1.drop_first();
    assert(spec_run_poll(st1, rest1) == spec_run_poll(st2, rest2));
    assert(rest2[0] == outcomes[2]);
    assert(spec_poll_step(st2, rest2[0]) == (PollStepV::Success { access_token: tok }));
    assert(spec_run_poll(st2, rest2) == Ok::<Seq<char>, Seq<char>>(tok));
}

/// Checks a role-credentials reply and builds the session it carries.
/// Each missing credential half is its own error; the expiry is kept
/// as the broker's epoch milliseconds.
pub fn session_from_role_credentials(
    account_id: &str,
    role_name: &str,
    access_key_id: Option<&str>,
    secret_access_key: Option<&str>,
    session_token: Option<&str>,
    expiration_ms: i64,
) -> (r: Result<AwsSsoSession, String>)
    ensures
        match access_key_id {
            None => r matches Err(m) && m@ == "missing accessKeyId"@,
            Some(ak) => match secret_access_key {
                None => r matches Err(m) && m@ == "missing secretAccessKey"@,
                Some(sk) => match session_token {
                    None => r matches Err(m) && m@ == "missing sessionToken"@,
                    Some(tok) => {
                        &&& r matches Ok(s)
                        &&& s.access_key_id@ == ak@
                        &&& s.secret_access_key@ == sk@
                        &&& s.session_token@ == tok@
                        &&& s.account_id@ == account_id@
                        &&& s.role_name@ == role_name@
                        &&& s.expires_at_epoch_ms == expiration_ms
                    },
                },
            },
        },
{
    let ak = match must(access_key_id, "accessKeyId") {
        Ok(v) => v,
        Err(e) => {
            proof {
                reveal_strlit("missing ");
                reveal_strlit("accessKeyId");
                reveal_strlit("missing accessKeyId");
                assert(e@ =~= "missing accessKeyId"@);
            }
            return Err(e);
        },
    };
    let sk = match must(secret_access_key, "secretAccessKey") {
        Ok(v) => v,
        Err(e) => {
            proof {
                reveal_strlit("missing ");
                reveal_strlit("secretAccessKey");
                reveal_strlit("missing secretAccessKey");
                assert(e@ =~= "missing secretAccessKey"@);
            }
            return Err(e);
        },
    };
    let tok = match must(session_token, "sessionToken") {
        Ok(v) => v,
        Err(e) => {
            proof {
                reveal_strlit("missing ");
                reveal_strlit("sessionToken");
                reveal_strlit("missing sessionToken");
                assert(e@ =~= "missing sessionToken"@);
            }
            return Err(e);
        },
    };
    Ok(
        AwsSsoSession {
            access_key_id: ak,
            secret_access_key: sk,
            session_token: tok,
            account_id: account_id.to_owned(),
            role_name: role_name.to_owned(),
            expires_at_epoch_ms: expiration_ms,
        },
    )
}

impl AwsSsoSession {
    /// The stored form of this session, for the daemon's registry.
    pub fn to_aws_session(&self, region: Option<String>) -> (r: crate::state::AwsSession)
        ensures
            r.account_id@ == self.account_id@,
            r.role_name@ == self.role_name@,
            opt_string_view(r.region) == opt_string_view(region),
            r.access_key_id@ == self.access_key_id@,
            r.secret_access_key@ == self.secret_access_key@,
            r.session_token@ == self.session_token@,
            r.expires_at_epoch_ms == self.expires_at_epoch_ms,
    {
        crate::state::AwsSession {
            account_id: self.account_id.clone(),
            role_name: self.role_name.clone(),
            region,
            access_key_id: self.access_key_id.clone(),
            secret_access_key: self.secret_access_key.clone(),
            session_token: self.session_token.clone(),
            expires_at_epoch_ms: self.expires_at_epoch_ms,
        }
    }
}

} // verus!
