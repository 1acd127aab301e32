//! The library's model of one pod resource: exactly the parts of the
//! cluster API's pod object that the daemon reads, as plain values,
//! with a mathematical view for contracts.
//!
//! The watch plumbing outside the library converts each observed pod
//! into a `PodResource`; everything the daemon then computes from it —
//! the summary projection and the environment listing — is verified
//! here.

use vstd::prelude::*;

use crate::protocol::{clone_opt_string, opt_string_view, EnvEntry, EnvEntryV, PodSummary};

verus! {

/// The reason/message detail of a waiting or terminated container
/// state.
#[derive(Debug, PartialEq, Eq)]
pub struct ContainerStateDetail {
    pub reason: Option<String>,
    pub message: Option<String>,
}

/// The status of one container: its restart count and the detail of
/// its waiting or terminated state, when present.
#[derive(Debug, PartialEq, Eq)]
pub struct ContainerStatus {
    pub restart_count: i32,
    pub waiting: Option<ContainerStateDetail>,
    pub terminated: Option<ContainerStateDetail>,
}

/// One pod condition: its type and its status, both strings.
#[derive(Debug, PartialEq, Eq)]
pub struct PodCondition {
    pub type_: String,
    pub status: String,
}

/// The declared spec of one container: its name and its declared
/// environment variables.
#[derive(Debug, PartialEq, Eq)]
pub struct ContainerSpec {
    pub name: String,
    pub env: Vec<EnvEntry>,
}

/// The status of one pod.
#[derive(Debug, PartialEq, Eq)]
pub struct PodStatus {
    pub phase: Option<String>,
    pub conditions: Option<Vec<PodCondition>>,
    pub container_statuses: Option<Vec<ContainerStatus>>,
}

/// The declared spec of one pod.
#[derive(Debug, PartialEq, Eq)]
pub struct PodSpec {
    pub containers: Vec<ContainerSpec>,
}

/// One pod resource, as the mirror holds it.
#[derive(Debug, PartialEq, Eq)]
pub struct PodResource {
    pub name: Option<String>,
    pub namespace: Option<String>,
    pub status: Option<PodStatus>,
    pub spec: Option<PodSpec>,
}

// ---------------------------------------------------------------------
// Mathematical views.
// ---------------------------------------------------------------------
pub ghost struct ContainerStateDetailV {
    pub reason: Option<Seq<char>>,
    pub message: Option<Seq<char>>,
}

pub ghost struct ContainerStatusV {
    pub restart_count: i32,
    pub waiting: Option<ContainerStateDetailV>,
    pub terminated: Option<ContainerStateDetailV>,
}

pub ghost struct PodConditionV {
    pub type_: Seq<char>,
    pub status: Seq<char>,
}

pub ghost struct ContainerSpecV {
    pub name: Seq<char>,
    pub env: Seq<EnvEntryV>,
}

pub ghost struct PodStatusV {
    pub phase: Option<Seq<char>>,
    pub conditions: Option<Seq<PodConditionV>>,
    pub container_statuses: Option<Seq<ContainerStatusV>>,
}

pub ghost struct PodSpecV {
    pub containers: Seq<ContainerSpecV>,
}

pub ghost struct PodResourceV {
    pub name: Option<Seq<char>>,
    pub namespace: Option<Seq<char>>,
    pub status: Option<PodStatusV>,
    pub spec: Option<PodSpecV>,
}

impl View for ContainerStateDetail {
    type V = ContainerStateDetailV;

    open spec fn view(&self) -> ContainerStateDetailV {
        ContainerStateDetailV {
            reason: opt_string_view(self.reason),
            message: opt_string_view(self.message),
        }
    }
}

pub open spec fn opt_detail_view(o: Option<ContainerStateDetail>) -> Option<
    ContainerStateDetailV,
> {
    match o {
        Some(d) => Some(d@),
        None => None,
    }
}

impl View for ContainerStatus {
    type V = ContainerStatusV;

    open spec fn view(&self) -> ContainerStatusV {
        ContainerStatusV {
            restart_count: self.restart_count,
            waiting: opt_detail_view(self.waiting),
            terminated: opt_detail_view(self.terminated),
        }
    }
}

impl View for PodCondition {
    type V = PodConditionV;

    open spec fn view(&self) -> PodConditionV {
        PodConditionV { type_: self.type_@, status: self.status@ }
    }
}

impl View for ContainerSpec {
    type V = ContainerSpecV;

    open spec fn view(&self) -> ContainerSpecV {
        ContainerSpecV { name: self.name@, env: self.env@.map_values(|e: EnvEntry| e@) }
    }
}

impl View for PodStatus {
    type V = PodStatusV;

    open spec fn view(&self) -> PodStatusV {
        PodStatusV {
            phase: opt_string_view(self.phase),
            conditions: match self.conditions {
                Some(v) => Some(v@.map_values(|c: PodCondition| c@)),
                None => None,
            },
            container_statuses: match self.container_statuses {
                Some(v) => Some(v@.map_values(|c: ContainerStatus| c@)),
                None => None,
            },
        }
    }
}

impl View for PodSpec {
    type V = PodSpecV;

    open spec fn view(&self) -> PodSpecV {
        PodSpecV { containers: self.containers@.map_values(|c: ContainerSpec| c@) }
    }
}

pub open spec fn opt_status_view(o: Option<PodStatus>) -> Option<PodStatusV> {
    match o {
        Some(s) => Some(s@),
        None => None,
    }
}

pub open spec fn opt_spec_view(o: Option<PodSpec>) -> Option<PodSpecV> {
    match o {
        Some(s) => Some(s@),
        None => None,
    }
}

impl View for PodResource {
    type V = PodResourceV;

    open spec fn view(&self) -> PodResourceV {
        PodResourceV {
            name: opt_string_view(self.name),
            namespace: opt_string_view(self.namespace),
            status: opt_status_view(self.status),
            spec: opt_spec_view(self.spec),
        }
    }
}

// ---------------------------------------------------------------------
// Clones that provably keep the view.
// ---------------------------------------------------------------------
impl Clone for ContainerStateDetail {
    fn clone(&self) -> (r: Self)
        ensures
            r@ == self@,
    {
        ContainerStateDetail {
            reason: clone_opt_string(&self.reason),
            message: clone_opt_string(&self.message),
        }
    }
}

fn clone_opt_detail(o: &Option<ContainerStateDetail>) -> (r: Option<ContainerStateDetail>)
    ensures
        opt_detail_view(r) == opt_detail_view(*o),
{
    match o {
        Some(d) => Some(d.clone()),
        None => None,
    }
}

impl Clone for ContainerStatus {
    fn clone(&self) -> (r: Self)
        ensures
            r@ == self@,
    {
        ContainerStatus {
            restart_count: self.restart_count,
            waiting: clone_opt_detail(&self.waiting),
            terminated: clone_opt_detail(&self.terminated),
        }
    }
}

impl Clone for PodCondition {
    fn clone(&self) -> (r: Self)
        ensures
            r@ == self@,
    {
        PodCondition { type_: self.type_.clone(), status: self.status.clone() }
    }
}

fn clone_env_vec(v: &Vec<EnvEntry>) -> (r: Vec<EnvEntry>)
    ensures
        r@ == v@,
{
    let mut out: Vec<EnvEntry> = Vec::new();
    let mut k: usize = 0;
    while k < v.len()
        invariant
            k <= v@.len(),
            out@ == v@.subrange(0, k as int),
        decreases v@.len() - k,
    {
        out.push(v[k].clone());
        k = k + 1;
        assert(out@ =~= v@.subrange(0, k as int));
    }
    assert(out@ =~= v@);
    out
}

impl Clone for ContainerSpec {
    fn clone(&self) -> (r: Self)
        ensures
            r@ == self@,
    {
        ContainerSpec { name: self.name.clone(), env: clone_env_vec(&self.env) }
    }
}

fn clone_condition_vec(v: &Vec<PodCondition>) -> (r: Vec<PodCondition>)
    ensures
        r@.map_values(|c: PodCondition| c@) == v@.map_values(|c: PodCondition| c@),
{
    let mut out: Vec<PodCondition> = Vec::new();
    let mut k: usize = 0;
    assert(out@.map_values(|c: PodCondition| c@) =~= v@.take(0).map_values(|c: PodCondition| c@));
    while k < v.len()
        invariant
            k <= v@.len(),
            out@.len() == k,
            out@.map_values(|c: PodCondition| c@) == v@.take(k as int).map_values(|c: PodCondition| c@),
        decreases v@.len() - k,
    {
        let c = v[k].clone();
        let ghost out_old = out@;
        proof {
            assert(c@ == v@[k as int]@);
        }
        out.push(c);
        k = k + 1;
        proof {
            out_old.lemma_push_map_commute(|c: PodCondition| c@, c);
            v@.lemma_map_take_succ(|c: PodCondition| c@, k as int - 1);
            assert(out@.map_values(|c: PodCondition| c@) =~= v@.take(k as int).map_values(
                |c: PodCondition| c@,
            ));
        }
    }
    proof {
        assert(v@.take(v@.len() as int) =~= v@);
    }
    out
}

fn clone_status_vec(v: &Vec<ContainerStatus>) -> (r: Vec<ContainerStatus>)
    ensures
        r@.map_values(|c: ContainerStatus| c@) == v@.map_values(|c: ContainerStatus| c@),
{
    let mut out: Vec<ContainerStatus> = Vec::new();
    let mut k: usize = 0;
    assert(out@.map_values(|c: ContainerStatus| c@) =~= v@.take(0).map_values(|c: ContainerStatus| c@));
    while k < v.len()
        invariant
            k <= v@.len(),
            out@.len() == k,
            out@.map_values(|c: ContainerStatus| c@) == v@.take(k as int).map_values(|c: ContainerStatus| c@),
        decreases v@.len() - k,
    {
        let c = v[k].clone();
        let ghost out_old = out@;
        proof {
            assert(c@ == v@[k as int]@);
        }
        out.push(c);
        k = k + 1;
        proof {
            out_old.lemma_push_map_commute(|c: ContainerStatus| c@, c);
            v@.lemma_map_take_succ(|c: ContainerStatus| c@, k as int - 1);
            assert(out@.map_values(|c: ContainerStatus| c@) =~= v@.take(k as int).map_values(
                |c: ContainerStatus| c@,
            ));
        }
    }
    proof {
        assert(v@.take(v@.len() as int) =~= v@);
    }
    out
}

fn clone_container_vec(v: &Vec<ContainerSpec>) -> (r: Vec<ContainerSpec>)
    ensures
        r@.map_values(|c: ContainerSpec| c@) == v@.map_values(|c: ContainerSpec| c@),
{
    let mut out: Vec<ContainerSpec> = Vec::new();
    let mut k: usize = 0;
    assert(out@.map_values(|c: ContainerSpec| c@) =~= v@.take(0).map_values(|c: ContainerSpec| c@));
    while k < v.len()
        invariant
            k <= v@.len(),
            out@.len() == k,
            out@.map_values(|c: ContainerSpec| c@) == v@.take(k as int).map_values(|c: ContainerSpec| c@),
        decreases v@.len() - k,
    {
        let c = v[k].clone();
        let ghost out_old = out@;
        proof {
            assert(c@ == v@[k as int]@);
        }
        out.push(c);
        k = k + 1;
        proof {
            out_old.lemma_push_map_commute(|c: ContainerSpec| c@, c);
            v@.lemma_map_take_succ(|c: ContainerSpec| c@, k as int - 1);
            assert(out@.map_values(|c: ContainerSpec| c@) =~= v@.take(k as int).map_values(
                |c: ContainerSpec| c@,
            ));
        }
    }
    proof {
        assert(v@.take(v@.len() as int) =~= v@);
    }
    out
}

impl Clone for PodStatus {
    fn clone(&self) -> (r: Self)
        ensures
            r@ == self@,
    {
        PodStatus {
            phase: clone_opt_string(&self.phase),
            conditions: match &self.conditions {
                Some(v) => Some(clone_condition_vec(v)),
                None => None,
            },
            container_statuses: match &self.container_statuses {
                Some(v) => Some(clone_status_vec(v)),
                None => None,
            },
        }
    }
}

impl Clone for PodSpec {
    fn clone(&self) -> (r: Self)
        ensures
            r@ == self@,
    {
        PodSpec { containers: clone_container_vec(&self.containers) }
    }
}

impl Clone for PodResource {
    fn clone(&self) -> (r: Self)
        ensures
            r@ == self@,
    {
        PodResource {
            name: clone_opt_string(&self.name),
            namespace: clone_opt_string(&self.namespace),
            status: match &self.status {
                Some(s) => Some(s.clone()),
                None => None,
            },
            spec: match &self.spec {
                Some(s) => Some(s.clone()),
                None => None,
            },
        }
    }
}

// ---------------------------------------------------------------------
// What the projection computes, as spec functions over views.
// ---------------------------------------------------------------------
/// The namespace of a pod: the declared one, or "default" when none is
/// set.
pub open spec fn spec_pod_namespace(p: PodResourceV) -> Seq<char> {
    match p.namespace {
        Some(ns) => ns,
        None => "default"@,
    }
}

/// The phase of a pod, when its status declares one.
pub open spec fn spec_pod_phase(p: PodResourceV) -> Option<Seq<char>> {
    match p.status {
        Some(st) => st.phase,
        None => None,
    }
}

/// The conditions a status declares, or nothing.
pub open spec fn spec_status_conditions(status: Option<PodStatusV>) -> Seq<PodConditionV> {
    match status {
        Some(st) => match st.conditions {
            Some(v) => v,
            None => Seq::empty(),
        },
        None => Seq::empty(),
    }
}

/// The container statuses a status declares, or nothing.
pub open spec fn spec_status_statuses(status: Option<PodStatusV>) -> Seq<ContainerStatusV> {
    match status {
        Some(st) => match st.container_statuses {
            Some(v) => v,
            None => Seq::empty(),
        },
        None => Seq::empty(),
    }
}

pub open spec fn spec_pod_conditions(p: PodResourceV) -> Seq<PodConditionV> {
    spec_status_conditions(p.status)
}

pub open spec fn spec_pod_statuses(p: PodResourceV) -> Seq<ContainerStatusV> {
    spec_status_statuses(p.status)
}

/// A pod is ready when some condition of type "Ready" has status
/// "True".
pub open spec fn spec_ready(conds: Seq<PodConditionV>) -> bool {
    exists|k: int|
        0 <= k < conds.len() && (#[trigger] conds[k]).type_ == "Ready"@ && conds[k].status
            == "True"@
}

/// Adds two restart counts, saturating at the bounds of `i32`.
pub open spec fn sat_add_i32(a: int, b: int) -> int {
    if a + b > i32::MAX as int {
        i32::MAX as int
    } else if a + b < i32::MIN as int {
        i32::MIN as int
    } else {
        a + b
    }
}

/// The summed restart count of the containers, left to right,
/// saturating at the bounds of `i32`.
pub open spec fn spec_restarts(s: Seq<ContainerStatusV>) -> int
    decreases s.len(),
{
    if s.len() == 0 {
        0
    } else {
        sat_add_i32(spec_restarts(s.drop_last()), s.last().restart_count as int)
    }
}

/// The reason/message pair of a pod: each container's waiting detail,
/// then its terminated detail, overwrite what came before, so the last
/// container with such a state wins.
pub open spec fn spec_reason_message(s: Seq<ContainerStatusV>) -> (Option<Seq<char>>, Option<
    Seq<char>,
>)
    decreases s.len(),
{
    if s.len() == 0 {
        (None, None)
    } else {
        let prev = spec_reason_message(s.drop_last());
        let c = s.last();
        let after_waiting = match c.waiting {
            Some(d) => (d.reason, d.message),
            None => prev,
        };
        match c.terminated {
            Some(d) => (d.reason, d.message),
            None => after_waiting,
        }
    }
}

// ---------------------------------------------------------------------
// Executable projection.
// ---------------------------------------------------------------------
/// Adds two restart counts, saturating at the bounds of `i32`.
fn sat_add_i32_exec(a: i32, b: i32) -> (r: i32)
    ensures
        r as int == sat_add_i32(a as int, b as int),
{
    let s: i64 = a as i64 + b as i64;
    if s > i32::MAX as i64 {
        i32::MAX
    } else if s < i32::MIN as i64 {
        i32::MIN
    } else {
        s as i32
    }
}

/// Computes the reason, message, readiness and restart sum of a pod's
/// status, as the summary shows them.
fn extract_status_fields(status: &Option<PodStatus>) -> (r: (
    Option<String>,
    Option<String>,
    bool,
    i32,
))
    ensures
        (opt_string_view(r.0), opt_string_view(r.1)) == spec_reason_message(
            spec_status_statuses(opt_status_view(*status)),
        ),
        r.2 == spec_ready(spec_status_conditions(opt_status_view(*status))),
        r.3 as int == spec_restarts(spec_status_statuses(opt_status_view(*status))),
{
    let mut ready: bool = false;
    let mut restarts: i32 = 0;
    let mut reason: Option<String> = None;
    let mut message: Option<String> = None;

    let ghost conds_v = spec_status_conditions(opt_status_view(*status));
    let ghost stats_v = spec_status_statuses(opt_status_view(*status));

    if let Some(st) = status {
        if let Some(conds) = &st.conditions {
            assert(conds_v == conds@.map_values(|c: PodCondition| c@));
            let mut k: usize = 0;
            while k < conds.len()
                invariant
                    k <= conds@.len(),
                    conds_v == conds@.map_values(|c: PodCondition| c@),
                    conds_v.len() == conds@.len(),
                    ready == exists|t: int|
                        0 <= t < k && (#[trigger] conds_v[t]).type_ == "Ready"@
                            && conds_v[t].status == "True"@,
                decreases conds@.len() - k,
            {
                let c = &conds[k];
                let ready_lit = String::from_str("Ready");
                let true_lit = String::from_str("True");
                if c.type_.eq(&ready_lit) && c.status.eq(&true_lit) {
                    proof {
                        reveal_strlit("Ready");
                        reveal_strlit("True");
                        assert(conds_v[k as int].type_ == "Ready"@);
                        assert(conds_v[k as int].status == "True"@);
                    }
                    ready = true;
                }
                k = k + 1;
            }
        }
        if let Some(stats) = &st.container_statuses {
            assert(stats_v == stats@.map_values(|c: ContainerStatus| c@));
            let mut k: usize = 0;
            while k < stats.len()
                invariant
                    k <= stats@.len(),
                    stats_v == stats@.map_values(|c: ContainerStatus| c@),
                    stats_v.len() == stats@.len(),
                    restarts as int == spec_restarts(stats_v.take(k as int)),
                    (opt_string_view(reason), opt_string_view(message)) == spec_reason_message(
                        stats_v.take(k as int),
                    ),
                decreases stats@.len() - k,
            {
                let c = &stats[k];
                restarts = sat_add_i32_exec(restarts, c.restart_count);
                if let Some(w) = &c.waiting {
                    reason = clone_opt_string(&w.reason);
                    message = clone_opt_string(&w.message);
                }
                if let Some(t) = &c.terminated {
                    reason = clone_opt_string(&t.reason);
                    message = clone_opt_string(&t.message);
                }
                k = k + 1;
                proof {
                    assert(stats_v.take(k as int).drop_last() =~= stats_v.take(k as int - 1));
                    assert(stats_v.take(k as int).last() == stats_v[k as int - 1]);
                }
            }
            proof {
                assert(stats_v.take(stats_v.len() as int) =~= stats_v);
            }
        }
    }
    (reason, message, ready, restarts)
}

impl PodSummary {
    /// Projects one mirrored pod to its summary for a given cluster.
    /// A pod without a name has no summary; a pod without a namespace
    /// is shown under "default".
    pub fn from_pod(cluster: &str, pod: &PodResource) -> (r: Option<PodSummary>)
        ensures
            match r {
                Some(s) => {
                    &&& pod@.name is Some
                    &&& s@ == spec_summary_of(cluster@, pod@)
                },
                None => pod@.name is None,
            },
    {
        let name = match &pod.name {
            Some(n) => n.clone(),
            None => {
                return None;
            },
        };
        let namespace = match &pod.namespace {
            Some(ns) => ns.clone(),
            None => String::from_str("default"),
        };
        let phase = match &pod.status {
            Some(st) => clone_opt_string(&st.phase),
            None => None,
        };
        let (reason, message, ready, restart_count) = extract_status_fields(&pod.status);
        Some(
            PodSummary {
                cluster: cluster.to_owned(),
                namespace,
                name,
                phase,
                reason,
                message,
                ready,
                restart_count,
            },
        )
    }
}

/// The summary a named pod projects to, for a given cluster name.
pub open spec fn spec_summary_of(
    cluster: Seq<char>,
    p: PodResourceV,
) -> crate::protocol::PodSummaryV {
    crate::protocol::PodSummaryV {
        cluster,
        namespace: spec_pod_namespace(p),
        name: p.name->0,
        phase: spec_pod_phase(p),
        reason: spec_reason_message(spec_pod_statuses(p)).0,
        message: spec_reason_message(spec_pod_statuses(p)).1,
        ready: spec_ready(spec_pod_conditions(p)),
        restart_count: spec_restarts_i32(spec_pod_statuses(p)),
    }
}

/// The saturating restart sum, as the `i32` the summary carries.
pub open spec fn spec_restarts_i32(s: Seq<ContainerStatusV>) -> i32 {
    spec_restarts(s) as i32
}

/// All environment entries declared across a pod's containers, in
/// declaration order, container by container.
pub open spec fn spec_all_env(containers: Seq<ContainerSpecV>) -> Seq<EnvEntryV>
    decreases containers.len(),
{
    if containers.len() == 0 {
        Seq::empty()
    } else {
        spec_all_env(containers.drop_last()) + containers.last().env
    }
}

/// Collects the environment entries of every container of a pod spec,
/// in declaration order.
pub fn collect_env(spec: &PodSpec) -> (r: Vec<EnvEntry>)
    ensures
        r@.map_values(|e: EnvEntry| e@) == spec_all_env(spec@.containers),
{
    let ghost cs = spec@.containers;
    let mut out: Vec<EnvEntry> = Vec::new();
    let mut k: usize = 0;
    assert(out@.map_values(|e: EnvEntry| e@) =~= spec_all_env(cs.take(0)));
    while k < spec.containers.len()
        invariant
            k <= spec.containers@.len(),
            cs == spec@.containers,
            cs.len() == spec.containers@.len(),
            out@.map_values(|e: EnvEntry| e@) == spec_all_env(cs.take(k as int)),
        decreases spec.containers@.len() - k,
    {
        let ghost out_before = out@;
        let c = &spec.containers[k];
        assert(c@ == cs[k as int]);
        let mut j: usize = 0;
        while j < c.env.len()
            invariant
                j <= c.env@.len(),
                out@ == out_before + c.env@.subrange(0, j as int),
        decreases c.env@.len() - j,
        {
            out.push(c.env[j].clone());
            j = j + 1;
            assert(out@ =~= out_before + c.env@.subrange(0, j as int));
        }
        k = k + 1;
        proof {
            assert(cs.take(k as int).drop_last() =~= cs.take(k as int - 1));
            assert(cs.take(k as int).last() == cs[k as int - 1]);
            assert(c.env@.subrange(0, c.env@.len() as int) =~= c.env@);
            assert(out@.map_values(|e: EnvEntry| e@) =~= out_before.map_values(|e: EnvEntry| e@)
                + c.env@.map_values(|e: EnvEntry| e@));
            assert(c.env@.map_values(|e: EnvEntry| e@) == cs[k as int - 1].env);
        }
    }
    proof {
        assert(cs.take(cs.len() as int) =~= cs);
    }
    out
}

} // verus!
