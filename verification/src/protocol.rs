//! Request and response types of the RPC protocol, with their
//! mathematical views.
//!
//! Every type here is a plain value: strings, options, vectors and
//! integers.  The view of a message replaces each `String` by its
//! character sequence, so that contracts over the wire codec and the
//! dispatcher can be stated mathematically.

use vstd::prelude::*;

verus! {

/// Version information returned for a `Version` request.
#[derive(Debug, PartialEq, Eq)]
pub struct VersionInfo {
    pub daemon_version: String,
    pub protocol_version: String,
    pub git_sha: Option<String>,
    pub build_date: Option<String>,
}

/// One environment variable declared by a container: a name and an
/// optional value.
#[derive(Debug, PartialEq, Eq, PartialOrd, Ord)]
pub struct EnvEntry {
    pub name: String,
    pub value: Option<String>,
}

/// A read-only projection of one pod.
#[derive(Debug, PartialEq, Eq)]
pub struct PodSummary {
    pub cluster: String,
    pub namespace: String,
    pub name: String,
    pub phase: Option<String>,
    pub reason: Option<String>,
    pub message: Option<String>,
    pub ready: bool,
    pub restart_count: i32,
}

/// The identity of one pod: the cluster it lives in, its namespace and
/// its name.
#[derive(Debug, PartialEq, Eq, Hash)]
pub struct PodKey {
    pub cluster: String,
    pub namespace: String,
    pub name: String,
}

/// A query for pod summaries.
#[derive(Debug, PartialEq, Eq)]
pub struct PodsRequest {
    pub cluster: Option<String>,
    pub namespace: Option<String>,
    pub failed_only: bool,
}

/// A query for the environment variables of one pod.
#[derive(Debug, PartialEq, Eq)]
pub struct EnvRequest {
    pub cluster: Option<String>,
    pub namespace: String,
    pub pod: String,
    pub container: Option<String>,
    pub filter_regex: Option<String>,
}

/// A request to store a federated cloud session under a profile name
/// and attach the configured cluster with it.
#[derive(Debug, PartialEq, Eq)]
pub struct LoginRequest {
    pub name: String,
    pub region: Option<String>,
    pub account_id: String,
    pub role_name: String,
    pub access_key_id: String,
    pub secret_access_key: String,
    pub session_token: String,
    pub expires_at_epoch_ms: i64,
}

/// A request from the client to the daemon.
#[derive(Debug, PartialEq, Eq)]
pub enum Request {
    /// Health check: the daemon must reply with `Response::Pong`.
    Ping,
    Pods(PodsRequest),
    Env(EnvRequest),
    Version,
    Login(LoginRequest),
}

/// A response from the daemon to the client.
#[derive(Debug, PartialEq, Eq)]
pub enum Response {
    Pong,
    Version(VersionInfo),
    Pods { pods: Vec<PodSummary> },
    EnvVars { vars: Vec<EnvEntry> },
    Error { message: String },
    LoginOk,
}

/// The view of an optional string: the character sequence it holds, if
/// any.
pub open spec fn opt_string_view(o: Option<String>) -> Option<Seq<char>> {
    match o {
        Some(s) => Some(s@),
        None => None,
    }
}

pub ghost struct VersionInfoV {
    pub daemon_version: Seq<char>,
    pub protocol_version: Seq<char>,
    pub git_sha: Option<Seq<char>>,
    pub build_date: Option<Seq<char>>,
}

pub ghost struct EnvEntryV {
    pub name: Seq<char>,
    pub value: Option<Seq<char>>,
}

pub ghost struct PodSummaryV {
    pub cluster: Seq<char>,
    pub namespace: Seq<char>,
    pub name: Seq<char>,
    pub phase: Option<Seq<char>>,
    pub reason: Option<Seq<char>>,
    pub message: Option<Seq<char>>,
    pub ready: bool,
    pub restart_count: i32,
}

pub ghost struct PodKeyV {
    pub cluster: Seq<char>,
    pub namespace: Seq<char>,
    pub name: Seq<char>,
}

pub ghost struct PodsRequestV {
    pub cluster: Option<Seq<char>>,
    pub namespace: Option<Seq<char>>,
    pub failed_only: bool,
}

pub ghost struct EnvRequestV {
    pub cluster: Option<Seq<char>>,
    pub namespace: Seq<char>,
    pub pod: Seq<char>,
    pub container: Option<Seq<char>>,
    pub filter_regex: Option<Seq<char>>,
}

pub ghost struct LoginRequestV {
    pub name: Seq<char>,
    pub region: Option<Seq<char>>,
    pub account_id: Seq<char>,
    pub role_name: Seq<char>,
    pub access_key_id: Seq<char>,
    pub secret_access_key: Seq<char>,
    pub session_token: Seq<char>,
    pub expires_at_epoch_ms: i64,
}

pub ghost enum RequestV {
    Ping,
    Pods(PodsRequestV),
    Env(EnvRequestV),
    Version,
    Login(LoginRequestV),
}

pub ghost enum ResponseV {
    Pong,
    Version(VersionInfoV),
    Pods { pods: Seq<PodSummaryV> },
    EnvVars { vars: Seq<EnvEntryV> },
    Error { message: Seq<char> },
    LoginOk,
}

impl View for VersionInfo {
    type V = VersionInfoV;

    open spec fn view(&self) -> VersionInfoV {
        VersionInfoV {
            daemon_version: self.daemon_version@,
            protocol_version: self.protocol_version@,
            git_sha: opt_string_view(self.git_sha),
            build_date: opt_string_view(self.build_date),
        }
    }
}

impl View for EnvEntry {
    type V = EnvEntryV;

    open spec fn view(&self) -> EnvEntryV {
        EnvEntryV { name: self.name@, value: opt_string_view(self.value) }
    }
}

impl View for PodSummary {
    type V = PodSummaryV;

    open spec fn view(&self) -> PodSummaryV {
        PodSummaryV {
            cluster: self.cluster@,
            namespace: self.namespace@,
            name: self.name@,
            phase: opt_string_view(self.phase),
            reason: opt_string_view(self.reason),
            message: opt_string_view(self.message),
            ready: self.ready,
            restart_count: self.restart_count,
        }
    }
}

impl View for PodKey {
    type V = PodKeyV;

    open spec fn view(&self) -> PodKeyV {
        PodKeyV { cluster: self.cluster@, namespace: self.namespace@, name: self.name@ }
    }
}

impl View for PodsRequest {
    type V = PodsRequestV;

    open spec fn view(&self) -> PodsRequestV {
        PodsRequestV {
            cluster: opt_string_view(self.cluster),
            namespace: opt_string_view(self.namespace),
            failed_only: self.failed_only,
        }
    }
}

impl View for EnvRequest {
    type V = EnvRequestV;

    open spec fn view(&self) -> EnvRequestV {
        EnvRequestV {
            cluster: opt_string_view(self.cluster),
            namespace: self.namespace@,
            pod: self.pod@,
            container: opt_string_view(self.container),
            filter_regex: opt_string_view(self.filter_regex),
        }
    }
}

impl View for LoginRequest {
    type V = LoginRequestV;

    open spec fn view(&self) -> LoginRequestV {
        LoginRequestV {
            name: self.name@,
            region: opt_string_view(self.region),
            account_id: self.account_id@,
            role_name: self.role_name@,
            access_key_id: self.access_key_id@,
            secret_access_key: self.secret_access_key@,
            session_token: self.session_token@,
            expires_at_epoch_ms: self.expires_at_epoch_ms,
        }
    }
}

impl View for Request {
    type V = RequestV;

    open spec fn view(&self) -> RequestV {
        match self {
            Request::Ping => RequestV::Ping,
            Request::Pods(p) => RequestV::Pods(p@),
            Request::Env(e) => RequestV::Env(e@),
            Request::Version => RequestV::Version,
            Request::Login(l) => RequestV::Login(l@),
        }
    }
}

impl View for Response {
    type V = ResponseV;

    open spec fn view(&self) -> ResponseV {
        match self {
            Response::Pong => ResponseV::Pong,
            Response::Version(v) => ResponseV::Version(v@),
            Response::Pods { pods } => ResponseV::Pods {
                pods: pods@.map_values(|p: PodSummary| p@),
            },
            Response::EnvVars { vars } => ResponseV::EnvVars {
                vars: vars@.map_values(|e: EnvEntry| e@),
            },
            Response::Error { message } => ResponseV::Error { message: message@ },
            Response::LoginOk => ResponseV::LoginOk,
        }
    }
}

/// Clones an optional string, keeping the value.
pub fn clone_opt_string(o: &Option<String>) -> (r: Option<String>)
    ensures
        r == *o,
{
    match o {
        Some(s) => Some(s.clone()),
        None => None,
    }
}

impl Clone for EnvEntry {
    fn clone(&self) -> (r: Self)
        ensures
            r == *self,
    {
        EnvEntry { name: self.name.clone(), value: clone_opt_string(&self.value) }
    }
}

impl Clone for PodSummary {
    fn clone(&self) -> (r: Self)
        ensures
            r == *self,
    {
        PodSummary {
            cluster: self.cluster.clone(),
            namespace: self.namespace.clone(),
            name: self.name.clone(),
            phase: clone_opt_string(&self.phase),
            reason: clone_opt_string(&self.reason),
            message: clone_opt_string(&self.message),
            ready: self.ready,
            restart_count: self.restart_count,
        }
    }
}

impl Clone for PodKey {
    fn clone(&self) -> (r: Self)
        ensures
            r == *self,
    {
        PodKey {
            cluster: self.cluster.clone(),
            namespace: self.namespace.clone(),
            name: self.name.clone(),
        }
    }
}

} // verus!
