//! The request dispatcher: what the daemon answers to each request,
//! specified as functions of the registry and the request.
//!
//! Queries never change the registry.  A login stores the session
//! first and then asks its caller to attach the cluster — the one step
//! that needs the network — and `complete_login` folds the outcome
//! back in.  `run` serves a whole connection's request sequence in
//! arrival order.

use vstd::prelude::*;

use crate::mirror::{find_index, ClusterState, ClusterStateV};
use crate::order::{sort_env, sort_pods, spec_sort_env, spec_sort_pods};
use crate::pod::{collect_env, spec_all_env, spec_summary_of, PodSpecV};
use crate::protocol::{
    EnvRequest, EnvRequestV, LoginRequestV, PodSummary, PodSummaryV, PodsRequest, PodsRequestV,
    Request, RequestV, Response, ResponseV, VersionInfo,
};
use crate::state::{spec_lookup, spec_upsert, AwsSession, AwsSessionV, DaemonState, DaemonStateV};

verus! {

// ---------------------------------------------------------------------
// What each query answers, as spec functions.
// ---------------------------------------------------------------------
/// The cluster a request addresses: the named one, or the default.
pub open spec fn spec_resolve_cluster(s: DaemonStateV, cluster: Option<Seq<char>>) -> Seq<char> {
    match cluster {
        Some(c) => c,
        None => s.default_cluster,
    }
}

/// The message of the reply to a request for an unknown cluster.
pub open spec fn spec_unknown_cluster_message(cname: Seq<char>) -> Seq<char> {
    "cluster not found: "@ + cname
}

/// Whether a pod summary passes a query's filters: the namespace when
/// one is given, and the failure predicate when asked for failed pods
/// only (phase "Failed", or reason "CrashLoopBackOff").
pub open spec fn spec_keep_pod(sv: PodSummaryV, req: PodsRequestV) -> bool {
    &&& match req.namespace {
        Some(ns) => sv.namespace == ns,
        None => true,
    }
    &&& (req.failed_only ==> (sv.phase == Some("Failed"@) || sv.reason == Some(
        "CrashLoopBackOff"@,
    )))
}

/// The summaries a pods query selects, in mirror order: every named
/// pod projected, then filtered.
pub open spec fn spec_project_pods(
    cluster: Seq<char>,
    pods: Seq<crate::pod::PodResourceV>,
    req: PodsRequestV,
) -> Seq<PodSummaryV>
    decreases pods.len(),
{
    if pods.len() == 0 {
        Seq::empty()
    } else {
        let rest = spec_project_pods(cluster, pods.drop_last(), req);
        let p = pods.last();
        if p.name is Some {
            let sv = spec_summary_of(cluster, p);
            if spec_keep_pod(sv, req) {
                rest.push(sv)
            } else {
                rest
            }
        } else {
            rest
        }
    }
}

/// The whole answer to a pods query: an error naming the cluster when
/// it is not attached, else the selected summaries sorted by
/// (namespace, name).
pub open spec fn spec_pods_response(s: DaemonStateV, req: PodsRequestV) -> ResponseV {
    let cname = spec_resolve_cluster(s, req.cluster);
    match spec_lookup(s.clusters, cname) {
        None => ResponseV::Error { message: spec_unknown_cluster_message(cname) },
        Some(cs) => ResponseV::Pods {
            pods: spec_sort_pods(spec_project_pods(cname, cs.pods, req)),
        },
    }
}

/// The message of the reply to an env query for an absent pod.
pub open spec fn spec_pod_not_found_message(namespace: Seq<char>, pod: Seq<char>) -> Seq<char> {
    "pod "@ + namespace + "/"@ + pod + " not found"@
}

/// The whole answer to an env query: an error when the cluster is not
/// attached or the pod is absent; else every container's declared
/// variables, sorted by (name, value).  A pod without a declared spec
/// declares no containers, so it answers the empty list, not an error.
/// The query's `container` and `filter_regex` fields are carried on
/// the wire but not applied.
pub open spec fn spec_env_response(s: DaemonStateV, req: EnvRequestV) -> ResponseV {
    let cname = spec_resolve_cluster(s, req.cluster);
    match spec_lookup(s.clusters, cname) {
        None => ResponseV::Error { message: spec_unknown_cluster_message(cname) },
        Some(cs) => {
            let i = find_index(cs.pods, req.namespace, req.pod);
            if i < 0 {
                ResponseV::Error {
                    message: spec_pod_not_found_message(req.namespace, req.pod),
                }
            } else {
                match cs.pods[i].spec {
                    None => ResponseV::EnvVars { vars: Seq::empty() },
                    Some(sp) => ResponseV::EnvVars {
                        vars: spec_sort_env(spec_all_env(sp.containers)),
                    },
                }
            }
        },
    }
}

/// The answer to a query request.  A login is not a query: it goes
/// through `Handler::handle` and `Handler::complete_login`.
pub open spec fn spec_query_response(s: DaemonStateV, req: RequestV) -> ResponseV {
    match req {
        RequestV::Ping => ResponseV::Pong,
        RequestV::Version => ResponseV::Version(s.version),
        RequestV::Pods(p) => spec_pods_response(s, p),
        RequestV::Env(e) => spec_env_response(s, e),
        RequestV::Login(_) => arbitrary(),
    }
}

/// The session a login request stores.
pub open spec fn spec_session_of_login(l: LoginRequestV) -> AwsSessionV {
    AwsSessionV {
        account_id: l.account_id,
        role_name: l.role_name,
        region: l.region,
        access_key_id: l.access_key_id,
        secret_access_key: l.secret_access_key,
        session_token: l.session_token,
        expires_at_epoch_ms: l.expires_at_epoch_ms,
    }
}

/// The message of the reply to a login whose attach failed: the
/// session was stored all the same.
pub open spec fn spec_attach_failed_message(profile: Seq<char>, detail: Seq<char>) -> Seq<char> {
    "stored session but failed to start clusters for profile "@ + profile + ": "@ + detail
}

// ---------------------------------------------------------------------
// The dispatcher.
// ---------------------------------------------------------------------
/// What `Handler::handle` asks of its caller: reply now, or perform
/// the attach for a just-stored login and then call `complete_login`.
#[derive(Debug)]
pub enum HandleOutcome {
    /// The reply to send.
    Done(Response),
    /// A login stored a session under this profile; the caller must
    /// now attempt the attach and fold its outcome back in.
    NeedAttach { profile: String },
}

/// The dispatcher: it owns the registry and answers requests from it.
pub struct Handler {
    state: DaemonState,
}

impl View for Handler {
    type V = DaemonStateV;

    closed spec fn view(&self) -> DaemonStateV {
        self.state@
    }
}

fn exec_resolve_cluster(state: &DaemonState, cluster: &Option<String>) -> (r: String)
    ensures
        r@ == spec_resolve_cluster(state@, crate::protocol::opt_string_view(*cluster)),
{
    match cluster {
        Some(c) => c.clone(),
        None => state.default_cluster().to_owned(),
    }
}

fn unknown_cluster_error(cname: &str) -> (r: Response)
    ensures
        r@ == (ResponseV::Error { message: spec_unknown_cluster_message(cname@) }),
{
    Response::Error { message: String::from_str("cluster not found: ").concat(cname) }
}

fn keep_pod(s: &PodSummary, req: &PodsRequest) -> (r: bool)
    ensures
        r == spec_keep_pod(s@, req@),
{
    let ns_ok = match &req.namespace {
        Some(ns) => s.namespace.eq(ns),
        None => true,
    };
    let failed_ok = if req.failed_only {
        let failed_lit = String::from_str("Failed");
        let crash_lit = String::from_str("CrashLoopBackOff");
        let phase_failed = match &s.phase {
            Some(p) => p.eq(&failed_lit),
            None => false,
        };
        let reason_crash = match &s.reason {
            Some(r) => r.eq(&crash_lit),
            None => false,
        };
        phase_failed || reason_crash
    } else {
        true
    };
    ns_ok && failed_ok
}

impl Handler {
    /// Wraps the registry the daemon serves from.
    pub fn new(state: DaemonState) -> (r: Handler)
        ensures
            r@ == state@,
    {
        Handler { state }
    }

    /// The registry, for reading.
    pub fn state(&self) -> (r: &DaemonState)
        ensures
            r@ == self@,
    {
        &self.state
    }

    /// Routes one watch event into the mirror of the named cluster.
    pub fn apply_cluster_event(&mut self, name: &str, ev: crate::mirror::WatchEvent)
        ensures
            final(self)@.sessions == old(self)@.sessions,
            final(self)@.default_cluster == old(self)@.default_cluster,
            final(self)@.version == old(self)@.version,
            final(self)@.clusters == crate::state::spec_route_event(
                old(self)@.clusters,
                name@,
                ev@,
            ),
    {
        self.state.apply_cluster_event(name, ev);
    }

    fn handle_version(&self) -> (r: Response)
        ensures
            r@ == ResponseV::Version(self@.version),
    {
        let v = &self.state.version;
        Response::Version(
            VersionInfo {
                daemon_version: v.daemon_version.clone(),
                protocol_version: v.protocol_version.clone(),
                git_sha: crate::protocol::clone_opt_string(&v.git_sha),
                build_date: crate::protocol::clone_opt_string(&v.build_date),
            },
        )
    }

    fn handle_pods(&self, req: &PodsRequest) -> (r: Response)
        ensures
            r@ == spec_pods_response(self@, req@),
    {
        let cname = exec_resolve_cluster(&self.state, &req.cluster);
        let cs = match self.state.get_cluster(cname.as_str()) {
            Some(cs) => cs,
            None => {
                return unknown_cluster_error(cname.as_str());
            },
        };
        let snapshot = cs.store().state();
        let ghost snap_v = snapshot@.map_values(|p: crate::pod::PodResource| p@);
        let mut summaries: Vec<PodSummary> = Vec::new();
        let mut k: usize = 0;
        assert(summaries@.map_values(|s: PodSummary| s@) =~= spec_project_pods(
            cname@,
            snap_v.take(0),
            req@,
        ));
        while k < snapshot.len()
            invariant
                k <= snapshot@.len(),
                snap_v == snapshot@.map_values(|p: crate::pod::PodResource| p@),
                snap_v.len() == snapshot@.len(),
                summaries@.map_values(|s: PodSummary| s@) == spec_project_pods(
                    cname@,
                    snap_v.take(k as int),
                    req@,
                ),
            decreases snapshot@.len() - k,
        {
            let ghost acc_v = summaries@.map_values(|s: PodSummary| s@);
            let p = &snapshot[k];
            proof {
                assert(p@ == snap_v[k as int]);
            }
            match PodSummary::from_pod(cname.as_str(), p) {
                Some(s) => {
                    if keep_pod(&s, req) {
                        let ghost s_v = s@;
                        summaries.push(s);
                        proof {
                            assert(summaries@.map_values(|q: PodSummary| q@) =~= acc_v.push(s_v));
                        }
                    }
                },
                None => {},
            }
            k = k + 1;
            proof {
                assert(snap_v.take(k as int).drop_last() =~= snap_v.take(k as int - 1));
                assert(snap_v.take(k as int).last() == snap_v[k as int - 1]);
            }
        }
        proof {
            assert(snap_v.take(snap_v.len() as int) =~= snap_v);
        }
        let sorted = sort_pods(summaries);
        Response::Pods { pods: sorted }
    }

    fn handle_env(&self, req: &EnvRequest) -> (r: Response)
        ensures
            r@ == spec_env_response(self@, req@),
    {
        let cname = exec_resolve_cluster(&self.state, &req.cluster);
        let cs = match self.state.get_cluster(cname.as_str()) {
            Some(cs) => cs,
            None => {
                return unknown_cluster_error(cname.as_str());
            },
        };
        let pod = match cs.store().find_pod(req.namespace.as_str(), req.pod.as_str()) {
            Some(p) => p,
            None => {
                return Response::Error {
                    message: String::from_str("pod ").concat(req.namespace.as_str()).concat(
                        "/",
                    ).concat(req.pod.as_str()).concat(" not found"),
                };
            },
        };
        let sp = match &pod.spec {
            Some(sp) => sp,
            None => {
                let none: Vec<crate::protocol::EnvEntry> = Vec::new();
                assert(none@.map_values(|e: crate::protocol::EnvEntry| e@) =~= Seq::<
                    crate::protocol::EnvEntryV,
                >::empty());
                return Response::EnvVars { vars: none };
            },
        };
        let vars = collect_env(sp);
        let sorted = sort_env(vars);
        Response::EnvVars { vars: sorted }
    }

    /// Serves one request.  A query is answered at once and changes
    /// nothing; a login stores its session — superseding any session
    /// under the same profile — and hands the attach back to the
    /// caller.
    pub fn handle(&mut self, req: Request) -> (r: HandleOutcome)
        ensures
            match req@ {
                RequestV::Login(l) => {
                    &&& r matches HandleOutcome::NeedAttach { profile } && profile@ == l.name
                    &&& final(self)@.sessions == spec_upsert(
                        old(self)@.sessions,
                        l.name,
                        spec_session_of_login(l),
                    )
                    &&& final(self)@.clusters == old(self)@.clusters
                    &&& final(self)@.default_cluster == old(self)@.default_cluster
                    &&& final(self)@.version == old(self)@.version
                },
                _ => {
                    &&& final(self)@ == old(self)@
                    &&& r matches HandleOutcome::Done(resp) && resp@ == spec_query_response(
                        old(self)@,
                        req@,
                    )
                },
            },
    {
        match req {
            Request::Ping => HandleOutcome::Done(Response::Pong),
            Request::Version => HandleOutcome::Done(self.handle_version()),
            Request::Pods(p) => HandleOutcome::Done(self.handle_pods(&p)),
            Request::Env(e) => HandleOutcome::Done(self.handle_env(&e)),
            Request::Login(l) => {
                let profile = l.name.clone();
                let session = AwsSession {
                    account_id: l.account_id,
                    role_name: l.role_name,
                    region: l.region,
                    access_key_id: l.access_key_id,
                    secret_access_key: l.secret_access_key,
                    session_token: l.session_token,
                    expires_at_epoch_ms: l.expires_at_epoch_ms,
                };
                self.state.put_session(l.name, session);
                HandleOutcome::NeedAttach { profile }
            },
        }
    }

    /// Folds the outcome of a login's attach back in.  A successful
    /// attach registers the mirror under its cluster name and answers
    /// that the login succeeded; a failed one reports that the session
    /// was stored but the attach failed, and changes nothing.
    pub fn complete_login(&mut self, profile: &str, attach: Result<ClusterState, String>) -> (r:
        Response)
        ensures
            match attach {
                Ok(cs) => {
                    &&& final(self)@.clusters == spec_upsert(old(self)@.clusters, cs@.name, cs@)
                    &&& final(self)@.sessions == old(self)@.sessions
                    &&& final(self)@.default_cluster == old(self)@.default_cluster
                    &&& final(self)@.version == old(self)@.version
                    &&& r@ == ResponseV::LoginOk
                },
                Err(detail) => {
                    &&& final(self)@ == old(self)@
                    &&& r@ == (ResponseV::Error {
                        message: spec_attach_failed_message(profile@, detail@),
                    })
                },
            },
    {
        match attach {
            Ok(cs) => {
                let name = cs.name().to_owned();
                self.state.put_cluster(name, cs);
                Response::LoginOk
            },
            Err(detail) => Response::Error {
                message: String::from_str(
                    "stored session but failed to start clusters for profile ",
                ).concat(profile).concat(": ").concat(detail.as_str()),
            },
        }
    }
}

// ---------------------------------------------------------------------
// A whole connection, served in arrival order.
// ---------------------------------------------------------------------
/// The view of an attach outcome.
pub open spec fn attach_view(a: Result<ClusterState, String>) -> Result<ClusterStateV, Seq<char>> {
    match a {
        Ok(cs) => Ok(cs@),
        Err(m) => Err(m@),
    }
}

/// How many of these requests are logins.
pub open spec fn count_logins(reqs: Seq<RequestV>) -> int
    decreases reqs.len(),
{
    if reqs.len() == 0 {
        0
    } else {
        count_logins(reqs.drop_last()) + if reqs.last() is Login {
            1int
        } else {
            0int
        }
    }
}

/// What one login does to the registry, given its attach outcome: the
/// session is stored either way; a successful attach also registers
/// the cluster.
pub open spec fn spec_login_step(
    s: DaemonStateV,
    l: LoginRequestV,
    att: Result<ClusterStateV, Seq<char>>,
) -> (ResponseV, DaemonStateV) {
    let s1 = DaemonStateV {
        clusters: s.clusters,
        default_cluster: s.default_cluster,
        sessions: spec_upsert(s.sessions, l.name, spec_session_of_login(l)),
        version: s.version,
    };
    match att {
        Ok(csv) => (
            ResponseV::LoginOk,
            DaemonStateV {
                clusters: spec_upsert(s1.clusters, csv.name, csv),
                default_cluster: s1.default_cluster,
                sessions: s1.sessions,
                version: s1.version,
            },
        ),
        Err(m) => (ResponseV::Error { message: spec_attach_failed_message(l.name, m) }, s1),
    }
}

/// The responses and the final registry of serving these requests in
/// order, consuming one attach outcome per login.
pub open spec fn spec_run(
    s: DaemonStateV,
    reqs: Seq<RequestV>,
    atts: Seq<Result<ClusterStateV, Seq<char>>>,
) -> (Seq<ResponseV>, DaemonStateV)
    decreases reqs.len(),
{
    if reqs.len() == 0 {
        (Seq::empty(), s)
    } else {
        let prefix = spec_run(s, reqs.drop_last(), atts);
        match reqs.last() {
            RequestV::Login(l) => {
                let step = spec_login_step(prefix.1, l, atts[count_logins(reqs.drop_last())]);
                (prefix.0.push(step.0), step.1)
            },
            _ => (prefix.0.push(spec_query_response(prefix.1, reqs.last())), prefix.1),
        }
    }
}

/// The login count of a sequence splits across any cut.
proof fn lemma_count_logins_split(reqs: Seq<RequestV>, k: int)
    requires
        0 <= k <= reqs.len(),
    ensures
        count_logins(reqs) == count_logins(reqs.take(k)) + count_logins(reqs.skip(k)),
    decreases reqs.len(),
{
    if k == reqs.len() {
        assert(reqs.take(k) =~= reqs);
        assert(reqs.skip(k) =~= Seq::<RequestV>::empty());
    } else {
        assert(reqs.len() > 0);
        lemma_count_logins_split(reqs.drop_last(), k);
        assert(reqs.drop_last().take(k) =~= reqs.take(k));
        assert(reqs.skip(k).drop_last() =~= reqs.drop_last().skip(k));
        assert(reqs.skip(k).last() == reqs.last());
        assert(reqs.skip(k).len() > 0);
    }
}

/// The login count, unfolded from the front.
proof fn lemma_count_logins_drop_first(reqs: Seq<RequestV>)
    requires
        reqs.len() > 0,
    ensures
        count_logins(reqs) == count_logins(reqs.drop_first()) + if reqs[0] is Login {
            1int
        } else {
            0int
        },
    decreases reqs.len(),
{
    if reqs.len() == 1 {
        assert(reqs.drop_first() =~= Seq::<RequestV>::empty());
        assert(reqs.drop_last() =~= Seq::<RequestV>::empty());
        assert(reqs.last() == reqs[0]);
    } else {
        lemma_count_logins_drop_first(reqs.drop_last());
        assert(reqs.drop_first().drop_last() =~= reqs.drop_last().drop_first());
        assert(reqs.drop_first().len() > 0);
        assert(reqs.drop_first().last() == reqs.last());
        assert(reqs.drop_last()[0] == reqs[0]);
    }
}

/// The login count is never negative.
proof fn lemma_count_logins_nonneg(reqs: Seq<RequestV>)
    ensures
        count_logins(reqs) >= 0,
    decreases reqs.len(),
{
    if reqs.len() > 0 {
        lemma_count_logins_nonneg(reqs.drop_last());
    }
}

/// Serves a whole connection: each request in arrival order, each
/// login consuming the next attach outcome.  The responses and the
/// final registry are exactly what the run specification says.
pub fn run(
    handler: &mut Handler,
    requests: Vec<Request>,
    attaches: Vec<Result<ClusterState, String>>,
) -> (r: Vec<Response>)
    requires
        count_logins(requests@.map_values(|q: Request| q@)) == attaches@.len(),
    ensures
        r@.map_values(|p: Response| p@) == spec_run(
            old(handler)@,
            requests@.map_values(|q: Request| q@),
            attaches@.map_values(|a: Result<ClusterState, String>| attach_view(a)),
        ).0,
        final(handler)@ == spec_run(
            old(handler)@,
            requests@.map_values(|q: Request| q@),
            attaches@.map_values(|a: Result<ClusterState, String>| attach_view(a)),
        ).1,
{
    let ghost s0 = handler@;
    let ghost reqs_v = requests@.map_values(|q: Request| q@);
    let ghost atts_v = attaches@.map_values(|a: Result<ClusterState, String>| attach_view(a));
    let mut requests = requests;
    let mut attaches = attaches;
    let mut responses: Vec<Response> = Vec::new();
    let n = requests.len();
    let mut k: usize = 0;
    assert(reqs_v.take(0) =~= Seq::<RequestV>::empty());
    assert(requests@.map_values(|q: Request| q@) =~= reqs_v.skip(0));
    assert(attaches@.map_values(|a: Result<ClusterState, String>| attach_view(a)) =~= atts_v.skip(
        0,
    ));
    assert(responses@.map_values(|p: Response| p@) =~= spec_run(s0, reqs_v.take(0), atts_v).0);
    proof {
        lemma_count_logins_split(reqs_v, 0);
        assert(reqs_v.skip(0) =~= reqs_v);
    }
    while k < n
        invariant
            k <= n,
            reqs_v.len() == n,
            requests@.len() == n - k,
            requests@.map_values(|q: Request| q@) == reqs_v.skip(k as int),
            attaches@.map_values(|a: Result<ClusterState, String>| attach_view(a)) == atts_v.skip(
                count_logins(reqs_v.take(k as int)),
            ),
            0 <= count_logins(reqs_v.take(k as int)),
            count_logins(reqs_v.take(k as int)) + count_logins(reqs_v.skip(k as int))
                == atts_v.len(),
            responses@.map_values(|p: Response| p@) == spec_run(s0, reqs_v.take(k as int), atts_v).0,
            handler@ == spec_run(s0, reqs_v.take(k as int), atts_v).1,
        decreases n - k,
    {
        let ghost reqs_before = requests@;
        let ghost atts_before = attaches@;
        let ghost consumed: int = count_logins(reqs_v.take(k as int));
        let req = requests.remove(0);
        proof {
            assert(req == reqs_before[0]);
            assert(reqs_before.map_values(|q: Request| q@)[0] == req@);
            assert(req@ == reqs_v[k as int]);
            assert(requests@ =~= reqs_before.drop_first());
            assert forall|t: int| 0 <= t < requests@.len() implies requests@.map_values(
                |q: Request| q@,
            )[t] == #[trigger] reqs_v.skip(k as int + 1)[t] by {
                assert(requests@[t] == reqs_before[t + 1]);
                assert(reqs_before.map_values(|q: Request| q@)[t + 1] == reqs_v.skip(
                    k as int,
                )[t + 1]);
            }
            assert(requests@.map_values(|q: Request| q@) =~= reqs_v.skip(k as int + 1));
            // unfold the run over the grown prefix
            assert(reqs_v.take(k as int + 1).drop_last() =~= reqs_v.take(k as int));
            assert(reqs_v.take(k as int + 1).last() == reqs_v[k as int]);
            // the login counter over the grown prefix
            lemma_count_logins_drop_first(reqs_v.skip(k as int));
            assert(reqs_v.skip(k as int)[0] == reqs_v[k as int]);
            assert(reqs_v.skip(k as int).drop_first() =~= reqs_v.skip(k as int + 1));
            lemma_count_logins_nonneg(reqs_v.skip(k as int + 1));
        }
        let ghost resp_before = responses@;
        match handler.handle(req) {
            HandleOutcome::Done(resp) => {
                let ghost resp_v = resp@;
                responses.push(resp);
                k = k + 1;
                proof {
                    assert(responses@.map_values(|p: Response| p@) =~= resp_before.map_values(
                        |p: Response| p@,
                    ).push(resp_v));
                }
            },
            HandleOutcome::NeedAttach { profile } => {
                proof {
                    assert(reqs_v[k as int] is Login);
                    assert(count_logins(reqs_v.skip(k as int)) >= 1);
                    assert(consumed < atts_v.len());
                    assert(atts_before.map_values(
                        |a: Result<ClusterState, String>| attach_view(a),
                    ).len() == atts_before.len());
                    assert(atts_v.skip(consumed).len() == atts_v.len() - consumed);
                    assert(atts_before.len() > 0);
                    assert(atts_before.map_values(
                        |a: Result<ClusterState, String>| attach_view(a),
                    )[0] == atts_v[consumed]);
                }
                let att = attaches.remove(0);
                proof {
                    assert(att == atts_before[0]);
                    assert(attach_view(att) == atts_v[consumed]);
                    assert(attaches@ =~= atts_before.drop_first());
                    assert forall|t: int| 0 <= t < attaches@.len() implies attaches@.map_values(
                        |a: Result<ClusterState, String>| attach_view(a),
                    )[t] == #[trigger] atts_v.skip(consumed + 1)[t] by {
                        assert(attaches@[t] == atts_before[t + 1]);
                        assert(atts_before.map_values(
                            |a: Result<ClusterState, String>| attach_view(a),
                        )[t + 1] == atts_v.skip(consumed)[t + 1]);
                    }
                    assert(attaches@.map_values(|a: Result<ClusterState, String>| attach_view(a))
                        =~= atts_v.skip(consumed + 1));
                }
                let resp = handler.complete_login(profile.as_str(), att);
                let ghost resp_v = resp@;
                responses.push(resp);
                k = k + 1;
                proof {
                    assert(responses@.map_values(|p: Response| p@) =~= resp_before.map_values(
                        |p: Response| p@,
                    ).push(resp_v));
                }
            },
        }
    }
    proof {
        assert(reqs_v.take(n as int) =~= reqs_v);
    }
    responses
}

// ---------------------------------------------------------------------
// Laws of the dispatcher.
// ---------------------------------------------------------------------
/// Pings are idempotent and stateless: a run of N pings yields N
/// pongs, and the registry afterwards is exactly the registry before.
pub proof fn lemma_ping_idempotent(
    s: DaemonStateV,
    reqs: Seq<RequestV>,
    atts: Seq<Result<ClusterStateV, Seq<char>>>,
)
    requires
        forall|i: int| 0 <= i < reqs.len() ==> reqs[i] == RequestV::Ping,
    ensures
        spec_run(s, reqs, atts).1 == s,
        spec_run(s, reqs, atts).0 == Seq::new(reqs.len(), |i: int| ResponseV::Pong),
    decreases reqs.len(),
{
    if reqs.len() == 0 {
        assert(spec_run(s, reqs, atts).0 =~= Seq::new(reqs.len(), |i: int| ResponseV::Pong));
    } else {
        assert(forall|i: int| 0 <= i < reqs.drop_last().len() ==> reqs.drop_last()[i] == reqs[i]);
        lemma_ping_idempotent(s, reqs.drop_last(), atts);
        assert(reqs.last() == RequestV::Ping);
        assert(spec_run(s, reqs, atts).0 =~= Seq::new(reqs.len(), |i: int| ResponseV::Pong));
    }
}

/// In a pod spec whose containers declare no environment variables,
/// there is nothing to collect.
proof fn lemma_all_env_empty(containers: Seq<crate::pod::ContainerSpecV>)
    requires
        forall|j: int| 0 <= j < containers.len() ==> (#[trigger] containers[j]).env.len() == 0,
    ensures
        spec_all_env(containers) == Seq::<crate::protocol::EnvEntryV>::empty(),
    decreases containers.len(),
{
    if containers.len() > 0 {
        assert(forall|j: int|
            0 <= j < containers.drop_last().len() ==> (#[trigger] containers.drop_last()[j]).env
                == containers[j].env);
        lemma_all_env_empty(containers.drop_last());
        assert(containers.last().env =~= Seq::<crate::protocol::EnvEntryV>::empty());
        assert(spec_all_env(containers) =~= Seq::<crate::protocol::EnvEntryV>::empty());
    }
}

/// An env query for a pod with no declared spec, with zero containers,
/// or whose containers declare no environment variables, answers with
/// an empty list — not an error.
pub proof fn lemma_env_empty_when_nothing_declared(
    s: DaemonStateV,
    req: EnvRequestV,
    cs: ClusterStateV,
)
    requires
        spec_lookup(s.clusters, spec_resolve_cluster(s, req.cluster)) == Some(cs),
        find_index(cs.pods, req.namespace, req.pod) >= 0,
        match cs.pods[find_index(cs.pods, req.namespace, req.pod)].spec {
            None => true,
            Some(sp) => forall|j: int|
                0 <= j < sp.containers.len() ==> (#[trigger] sp.containers[j]).env.len() == 0,
        },
    ensures
        spec_env_response(s, req) == (ResponseV::EnvVars {
            vars: Seq::<crate::protocol::EnvEntryV>::empty(),
        }),
{
    match cs.pods[find_index(cs.pods, req.namespace, req.pod)].spec {
        None => {},
        Some(sp) => {
            lemma_all_env_empty(sp.containers);
        },
    }
}

/// A pods query naming a cluster that was never attached answers with
/// an error whose message is the fixed prefix followed by the cluster
/// name — so the message carries the name — and, like every query, it
/// leaves the registry unchanged (`Handler::handle`'s contract).
pub proof fn lemma_pods_unknown_cluster(s: DaemonStateV, req: PodsRequestV)
    requires
        spec_lookup(s.clusters, spec_resolve_cluster(s, req.cluster)) is None,
    ensures
        spec_pods_response(s, req) == (ResponseV::Error {
            message: spec_unknown_cluster_message(spec_resolve_cluster(s, req.cluster)),
        }),
        spec_unknown_cluster_message(spec_resolve_cluster(s, req.cluster)).skip(
            "cluster not found: "@.len() as int,
        ) == spec_resolve_cluster(s, req.cluster),
{
    let cname = spec_resolve_cluster(s, req.cluster);
    assert(("cluster not found: "@ + cname).skip("cluster not found: "@.len() as int) =~= cname);
}

/// An env query naming a cluster that was never attached answers with
/// the same error, its message carrying the cluster name.
pub proof fn lemma_env_unknown_cluster(s: DaemonStateV, req: EnvRequestV)
    requires
        spec_lookup(s.clusters, spec_resolve_cluster(s, req.cluster)) is None,
    ensures
        spec_env_response(s, req) == (ResponseV::Error {
            message: spec_unknown_cluster_message(spec_resolve_cluster(s, req.cluster)),
        }),
        spec_unknown_cluster_message(spec_resolve_cluster(s, req.cluster)).skip(
            "cluster not found: "@.len() as int,
        ) == spec_resolve_cluster(s, req.cluster),
{
    let cname = spec_resolve_cluster(s, req.cluster);
    assert(("cluster not found: "@ + cname).skip("cluster not found: "@.len() as int) =~= cname);
}

/// A pods query against a cluster with an empty mirror answers with an
/// empty, sorted list — not an error.
pub proof fn lemma_pods_empty_mirror(s: DaemonStateV, req: PodsRequestV, cs: ClusterStateV)
    requires
        spec_lookup(s.clusters, spec_resolve_cluster(s, req.cluster)) == Some(cs),
        cs.pods.len() == 0,
    ensures
        spec_pods_response(s, req) == (ResponseV::Pods { pods: Seq::<PodSummaryV>::empty() }),
{
    assert(spec_project_pods(spec_resolve_cluster(s, req.cluster), cs.pods, req)
        == Seq::<PodSummaryV>::empty());
}

} // verus!
