//! The per-cluster pod mirror: a local copy of the cluster's pod set,
//! kept current by a stream of watch events.
//!
//! The watch loop outside the library observes one event at a time and
//! applies it here; queries take whole-value snapshots.  The contracts
//! pin the mirror's contents to a fold of the applied events, so a
//! snapshot always reflects exactly the events applied so far — never
//! part of one.

use vstd::prelude::*;

use crate::pod::{spec_pod_namespace, PodResource, PodResourceV};

verus! {

use vstd::pervasive::VecAdditionalExecFns;

/// One observed change to the pod set of a cluster.
#[derive(Debug, PartialEq, Eq)]
pub enum WatchEvent {
    /// A pod was created or updated; also each pod of an initial or
    /// re-established listing.
    Apply(PodResource),
    /// The pod with this namespace and name disappeared.
    Delete { namespace: String, name: String },
    /// The watch was re-established from a fresh listing, which
    /// replaces the mirror wholesale.
    Resync(Vec<PodResource>),
}

pub ghost enum WatchEventV {
    Apply(PodResourceV),
    Delete { namespace: Seq<char>, name: Seq<char> },
    Resync(Seq<PodResourceV>),
}

impl View for WatchEvent {
    type V = WatchEventV;

    open spec fn view(&self) -> WatchEventV {
        match self {
            WatchEvent::Apply(p) => WatchEventV::Apply(p@),
            WatchEvent::Delete { namespace, name } => WatchEventV::Delete {
                namespace: namespace@,
                name: name@,
            },
            WatchEvent::Resync(pods) => WatchEventV::Resync(
                pods@.map_values(|p: PodResource| p@),
            ),
        }
    }
}

/// Whether a mirrored pod answers to this namespace and name.
pub open spec fn pod_key_matches(p: PodResourceV, namespace: Seq<char>, name: Seq<char>) -> bool {
    p.name == Some(name) && spec_pod_namespace(p) == namespace
}

/// The first position holding the pod with this key, or -1.
pub open spec fn find_index(pods: Seq<PodResourceV>, namespace: Seq<char>, name: Seq<char>) -> int
    decreases pods.len(),
{
    if pods.len() == 0 {
        -1
    } else if pod_key_matches(pods[0], namespace, name) {
        0
    } else {
        let r = find_index(pods.drop_first(), namespace, name);
        if r < 0 {
            -1
        } else {
            r + 1
        }
    }
}

/// What one event does to the mirrored pod set: an upsert keyed by
/// (namespace, name), a removal, or a wholesale replacement.  An
/// applied pod without a name is ignored, as no key can address it.
pub open spec fn spec_apply_event(pods: Seq<PodResourceV>, ev: WatchEventV) -> Seq<PodResourceV> {
    match ev {
        WatchEventV::Apply(p) => match p.name {
            None => pods,
            Some(name) => {
                let i = find_index(pods, spec_pod_namespace(p), name);
                if i >= 0 {
                    pods.update(i, p)
                } else {
                    pods.push(p)
                }
            },
        },
        WatchEventV::Delete { namespace, name } => {
            let i = find_index(pods, namespace, name);
            if i >= 0 {
                pods.remove(i)
            } else {
                pods
            }
        },
        WatchEventV::Resync(ps) => ps,
    }
}

/// The fold of a whole event sequence over an initial pod set.
pub open spec fn spec_apply_events(pods: Seq<PodResourceV>, evs: Seq<WatchEventV>) -> Seq<
    PodResourceV,
>
    decreases evs.len(),
{
    if evs.len() == 0 {
        pods
    } else {
        spec_apply_event(spec_apply_events(pods, evs.drop_last()), evs.last())
    }
}

/// The mirror evolves one whole event at a time: the fold of the first
/// `k + 1` events is one event applied to the fold of the first `k`.
/// Together with the contracts of `PodStore::apply` and
/// `PodStore::state`, this says that a snapshot taken between any two
/// events reflects exactly some prefix of the event sequence — never a
/// partially-applied event.
pub proof fn lemma_apply_events_prefix(init: Seq<PodResourceV>, evs: Seq<WatchEventV>, k: int)
    requires
        0 <= k < evs.len(),
    ensures
        spec_apply_events(init, evs.take(k + 1)) == spec_apply_event(
            spec_apply_events(init, evs.take(k)),
            evs[k],
        ),
{
    assert(evs.take(k + 1).drop_last() =~= evs.take(k));
    assert(evs.take(k + 1).last() == evs[k]);
}

/// The scan of a pod list finds the first match: when nothing in the
/// first `k` positions matches, the first match at or after `k` is the
/// find result.
proof fn lemma_find_index_scan(
    pods: Seq<PodResourceV>,
    namespace: Seq<char>,
    name: Seq<char>,
    k: int,
)
    requires
        0 <= k <= pods.len(),
        forall|t: int| 0 <= t < k ==> !pod_key_matches(#[trigger] pods[t], namespace, name),
        k < pods.len() ==> pod_key_matches(pods[k], namespace, name),
    ensures
        k < pods.len() ==> find_index(pods, namespace, name) == k,
        k == pods.len() ==> find_index(pods, namespace, name) == -1,
    decreases pods.len(),
{
    if pods.len() == 0 {
    } else if k == 0 {
        if pods.len() > 0 && !pod_key_matches(pods[0], namespace, name) {
            lemma_find_index_scan(pods.drop_first(), namespace, name, 0);
        }
    } else {
        assert(!pod_key_matches(pods[0], namespace, name));
        assert(forall|t: int|
            0 <= t < k - 1 ==> !pod_key_matches(#[trigger] pods.drop_first()[t], namespace, name));
        lemma_find_index_scan(pods.drop_first(), namespace, name, k - 1);
    }
}

/// The live pod set of one cluster, updated exclusively by its watch
/// loop and read through whole-value snapshots.
#[derive(Debug, PartialEq, Eq)]
pub struct PodStore {
    pods: Vec<PodResource>,
}

impl View for PodStore {
    type V = Seq<PodResourceV>;

    closed spec fn view(&self) -> Seq<PodResourceV> {
        self.pods@.map_values(|p: PodResource| p@)
    }
}

impl PodStore {
    /// An empty mirror.
    pub fn new() -> (r: PodStore)
        ensures
            r@ == Seq::<PodResourceV>::empty(),
    {
        let r = PodStore { pods: Vec::new() };
        assert(r@ =~= Seq::<PodResourceV>::empty());
        r
    }

    /// How many pods the mirror holds.
    pub fn len(&self) -> (r: usize)
        ensures
            r == self@.len(),
    {
        self.pods.len()
    }

    /// Finds the position of the pod with this key, scanning from the
    /// front.
    fn position_of(&self, namespace: &str, name: &str) -> (r: Option<usize>)
        ensures
            match r {
                Some(i) => i < self@.len() && find_index(self@, namespace@, name@) == i as int,
                None => find_index(self@, namespace@, name@) == -1,
            },
    {
        let ns = namespace.to_owned();
        let nm = name.to_owned();
        let default_ns = String::from_str("default");
        let mut k: usize = 0;
        while k < self.pods.len()
            invariant
                k <= self.pods@.len(),
                ns@ == namespace@,
                nm@ == name@,
                default_ns@ == "default"@,
                self@.len() == self.pods@.len(),
                forall|t: int|
                    0 <= t < k ==> !pod_key_matches(#[trigger] self@[t], namespace@, name@),
            decreases self.pods@.len() - k,
        {
            let p = &self.pods[k];
            assert(p@ == self@[k as int]);
            let name_matches = match &p.name {
                Some(n) => n.eq(&nm),
                None => false,
            };
            let ns_matches = match &p.namespace {
                Some(s) => s.eq(&ns),
                None => default_ns.eq(&ns),
            };
            if name_matches && ns_matches {
                proof {
                    lemma_find_index_scan(self@, namespace@, name@, k as int);
                }
                return Some(k);
            }
            proof {
                assert(!pod_key_matches(self@[k as int], namespace@, name@));
            }
            k = k + 1;
        }
        proof {
            lemma_find_index_scan(self@, namespace@, name@, self@.len() as int);
        }
        None
    }

    /// Applies one watch event: an upsert, a removal or a wholesale
    /// replacement.  The mirror afterwards is exactly the event folded
    /// onto the mirror before — events are never half-applied.
    pub fn apply(&mut self, ev: WatchEvent)
        ensures
            final(self)@ == spec_apply_event(old(self)@, ev@),
    {
        match ev {
            WatchEvent::Apply(p) => {
                let (ns_str, name_str) = match (&p.namespace, &p.name) {
                    (_, None) => {
                        return ;
                    },
                    (Some(ns), Some(n)) => (ns.clone(), n.clone()),
                    (None, Some(n)) => (String::from_str("default"), n.clone()),
                };
                proof {
                    assert(ns_str@ == spec_pod_namespace(p@));
                    assert(name_str@ == p@.name->0);
                }
                match self.position_of(ns_str.as_str(), name_str.as_str()) {
                    Some(i) => {
                        self.pods.set(i, p);
                        proof {
                            assert(self@ =~= spec_apply_event(old(self)@, ev@));
                        }
                    },
                    None => {
                        self.pods.push(p);
                        proof {
                            assert(self@ =~= spec_apply_event(old(self)@, ev@));
                        }
                    },
                }
            },
            WatchEvent::Delete { namespace, name } => {
                match self.position_of(namespace.as_str(), name.as_str()) {
                    Some(i) => {
                        self.pods.remove(i);
                        proof {
                            assert(self@ =~= spec_apply_event(old(self)@, ev@));
                        }
                    },
                    None => {
                        proof {
                            assert(self@ =~= spec_apply_event(old(self)@, ev@));
                        }
                    },
                }
            },
            WatchEvent::Resync(pods) => {
                self.pods = pods;
                proof {
                    assert(self@ =~= spec_apply_event(old(self)@, ev@));
                }
            },
        }
    }

    /// Applies a sequence of events in order.  After the call the
    /// mirror holds the fold of the whole sequence; at every step in
    /// between it held the fold of a prefix.
    pub fn apply_events(&mut self, evs: Vec<WatchEvent>)
        ensures
            final(self)@ == spec_apply_events(old(self)@, evs@.map_values(|e: WatchEvent| e@)),
    {
        let ghost evs_v = evs@.map_values(|e: WatchEvent| e@);
        let ghost init = self@;
        let mut evs = evs;
        let n = evs.len();
        let mut k: usize = 0;
        assert(self@ =~= spec_apply_events(init, evs_v.take(0)));
        assert(evs@.map_values(|e: WatchEvent| e@) =~= evs_v.skip(0));
        while k < n
            invariant
                k <= n,
                evs_v.len() == n,
                evs@.len() == n - k,
                evs@.map_values(|e: WatchEvent| e@) == evs_v.skip(k as int),
                self@ == spec_apply_events(init, evs_v.take(k as int)),
            decreases n - k,
        {
            let ghost evs_before = evs@;
            let ev = evs.remove(0);
            proof {
                assert(ev == evs_before[0]);
                assert(evs_before.map_values(|e: WatchEvent| e@)[0] == ev@);
                assert(ev@ == evs_v[k as int]);
                assert(evs@ =~= evs_before.drop_first());
                assert forall|t: int| 0 <= t < evs@.len() implies evs@.map_values(
                    |e: WatchEvent| e@,
                )[t] == #[trigger] evs_v.skip(k as int + 1)[t] by {
                    assert(evs@[t] == evs_before[t + 1]);
                    assert(evs_before.map_values(|e: WatchEvent| e@)[t + 1] == evs_v.skip(
                        k as int,
                    )[t + 1]);
                }
                assert(evs@.map_values(|e: WatchEvent| e@) =~= evs_v.skip(k as int + 1));
            }
            self.apply(ev);
            k = k + 1;
            proof {
                lemma_apply_events_prefix(init, evs_v, k as int - 1);
            }
        }
        proof {
            assert(evs_v.take(n as int) =~= evs_v);
        }
    }

    /// A point-in-time snapshot: a copy of every mirrored pod, equal
    /// in content to the mirror at the moment of the call.
    pub fn state(&self) -> (r: Vec<PodResource>)
        ensures
            r@.map_values(|p: PodResource| p@) == self@,
    {
        let mut out: Vec<PodResource> = Vec::new();
        let mut k: usize = 0;
        assert(out@.map_values(|p: PodResource| p@) =~= self.pods@.take(0).map_values(
            |p: PodResource| p@,
        ));
        while k < self.pods.len()
            invariant
                k <= self.pods@.len(),
                out@.len() == k,
                out@.map_values(|p: PodResource| p@) == self.pods@.take(k as int).map_values(
                    |p: PodResource| p@,
                ),
            decreases self.pods@.len() - k,
        {
            let c = self.pods[k].clone();
            let ghost out_old = out@;
            proof {
                assert(c@ == self.pods@[k as int]@);
            }
            out.push(c);
            k = k + 1;
            proof {
                out_old.lemma_push_map_commute(|p: PodResource| p@, c);
                self.pods@.lemma_map_take_succ(|p: PodResource| p@, k as int - 1);
                assert(out@.map_values(|p: PodResource| p@) =~= self.pods@.take(
                    k as int,
                ).map_values(|p: PodResource| p@));
            }
        }
        proof {
            assert(self.pods@.take(self.pods@.len() as int) =~= self.pods@);
        }
        out
    }

    /// Finds the pod with this namespace and name, if the mirror holds
    /// one, as a copy.
    pub fn find_pod(&self, namespace: &str, name: &str) -> (r: Option<PodResource>)
        ensures
            match r {
                Some(p) => {
                    &&& find_index(self@, namespace@, name@) >= 0
                    &&& p@ == self@[find_index(self@, namespace@, name@)]
                },
                None => find_index(self@, namespace@, name@) == -1,
            },
    {
        match self.position_of(namespace, name) {
            Some(i) => Some(self.pods[i].clone()),
            None => None,
        }
    }
}

/// The mirror of one attached cluster: its name and its pod store.
#[derive(Debug, PartialEq, Eq)]
pub struct ClusterState {
    name: String,
    store: PodStore,
}

pub ghost struct ClusterStateV {
    pub name: Seq<char>,
    pub pods: Seq<PodResourceV>,
}

impl View for ClusterState {
    type V = ClusterStateV;

    closed spec fn view(&self) -> ClusterStateV {
        ClusterStateV { name: self.name@, pods: self.store@ }
    }
}

impl ClusterState {
    /// Wraps a pod store under a cluster name.
    pub fn new(name: String, store: PodStore) -> (r: ClusterState)
        ensures
            r@.name == name@,
            r@.pods == store@,
    {
        ClusterState { name, store }
    }

    /// The name of this cluster.
    pub fn name(&self) -> (r: &str)
        ensures
            r@ == self@.name,
    {
        self.name.as_str()
    }

    /// The pod store of this cluster.
    pub fn store(&self) -> (r: &PodStore)
        ensures
            r@ == self@.pods,
    {
        &self.store
    }

    /// Routes one watch event into the store.
    pub fn apply(&mut self, ev: WatchEvent)
        ensures
            final(self)@.name == old(self)@.name,
            final(self)@.pods == spec_apply_event(old(self)@.pods, ev@),
    {
        self.store.apply(ev);
    }
}

} // verus!
