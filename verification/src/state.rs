//! The daemon's registry: attached clusters by name, stored cloud
//! sessions by profile name, the default cluster, and the version
//! information served to clients.
//!
//! Both maps are association lists looked up by their first match and
//! updated by replace-or-append, so a later entry under the same name
//! supersedes the earlier one and lookups are deterministic.

use vstd::prelude::*;

use crate::mirror::{ClusterState, ClusterStateV, WatchEvent};
use crate::protocol::{clone_opt_string, opt_string_view, VersionInfo, VersionInfoV};

verus! {

use vstd::pervasive::VecAdditionalExecFns;

/// A federated cloud session: the credentials a login stored, the
/// account and role they belong to, and their advisory expiry.
#[derive(Debug, PartialEq, Eq)]
pub struct AwsSession {
    pub account_id: String,
    pub role_name: String,
    pub region: Option<String>,
    pub access_key_id: String,
    pub secret_access_key: String,
    pub session_token: String,
    /// Advisory metadata: the daemon never enforces expiry.
    pub expires_at_epoch_ms: i64,
}

pub ghost struct AwsSessionV {
    pub account_id: Seq<char>,
    pub role_name: Seq<char>,
    pub region: Option<Seq<char>>,
    pub access_key_id: Seq<char>,
    pub secret_access_key: Seq<char>,
    pub session_token: Seq<char>,
    pub expires_at_epoch_ms: i64,
}

impl View for AwsSession {
    type V = AwsSessionV;

    open spec fn view(&self) -> AwsSessionV {
        AwsSessionV {
            account_id: self.account_id@,
            role_name: self.role_name@,
            region: opt_string_view(self.region),
            access_key_id: self.access_key_id@,
            secret_access_key: self.secret_access_key@,
            session_token: self.session_token@,
            expires_at_epoch_ms: self.expires_at_epoch_ms,
        }
    }
}

impl Clone for AwsSession {
    fn clone(&self) -> (r: Self)
        ensures
            r == *self,
    {
        AwsSession {
            account_id: self.account_id.clone(),
            role_name: self.role_name.clone(),
            region: clone_opt_string(&self.region),
            access_key_id: self.access_key_id.clone(),
            secret_access_key: self.secret_access_key.clone(),
            session_token: self.session_token.clone(),
            expires_at_epoch_ms: self.expires_at_epoch_ms,
        }
    }
}

// ---------------------------------------------------------------------
// Association lists: lookup by first match, update by replace-or-
// append.
// ---------------------------------------------------------------------
/// The value under the first entry with this key, if any.
pub open spec fn spec_lookup<T>(entries: Seq<(Seq<char>, T)>, key: Seq<char>) -> Option<T>
    decreases entries.len(),
{
    if entries.len() == 0 {
        None
    } else if entries[0].0 == key {
        Some(entries[0].1)
    } else {
        spec_lookup(entries.drop_first(), key)
    }
}

/// Replaces the first entry with this key, or appends one: a later
/// store under the same name supersedes the earlier one.
pub open spec fn spec_upsert<T>(entries: Seq<(Seq<char>, T)>, key: Seq<char>, value: T) -> Seq<
    (Seq<char>, T),
>
    decreases entries.len(),
{
    if entries.len() == 0 {
        seq![(key, value)]
    } else if entries[0].0 == key {
        seq![(key, value)] + entries.drop_first()
    } else {
        seq![entries[0]] + spec_upsert(entries.drop_first(), key, value)
    }
}

/// After an upsert, the key looks up the new value.
pub proof fn lemma_upsert_lookup<T>(entries: Seq<(Seq<char>, T)>, key: Seq<char>, value: T)
    ensures
        spec_lookup(spec_upsert(entries, key, value), key) == Some(value),
    decreases entries.len(),
{
    if entries.len() == 0 {
        assert(spec_upsert(entries, key, value)[0] == (key, value));
    } else if entries[0].0 == key {
        assert(spec_upsert(entries, key, value)[0] == (key, value));
    } else {
        lemma_upsert_lookup(entries.drop_first(), key, value);
        assert(spec_upsert(entries, key, value)[0] == entries[0]);
        let up = spec_upsert(entries, key, value);
        assert(up[0] == entries[0]);
        assert(up.drop_first() =~= spec_upsert(entries.drop_first(), key, value));
    }
}

/// After an upsert, every other key looks up what it did before.
pub proof fn lemma_upsert_other<T>(
    entries: Seq<(Seq<char>, T)>,
    key: Seq<char>,
    value: T,
    other: Seq<char>,
)
    requires
        other != key,
    ensures
        spec_lookup(spec_upsert(entries, key, value), other) == spec_lookup(entries, other),
    decreases entries.len(),
{
    if entries.len() == 0 {
        let up = spec_upsert(entries, key, value);
        assert(up[0] == (key, value));
        assert(up.drop_first() =~= Seq::<(Seq<char>, T)>::empty());
        assert(spec_lookup(up.drop_first(), other) is None);
        assert(spec_lookup(up, other) is None);
    } else if entries[0].0 == key {
        let up = spec_upsert(entries, key, value);
        assert(up[0] == (key, value));
        assert(up.drop_first() =~= entries.drop_first());
        assert(spec_lookup(up, other) == spec_lookup(entries.drop_first(), other));
        assert(spec_lookup(entries, other) == spec_lookup(entries.drop_first(), other));
    } else {
        lemma_upsert_other(entries.drop_first(), key, value, other);
        let up = spec_upsert(entries, key, value);
        assert(up[0] == entries[0]);
        assert(up.drop_first() =~= spec_upsert(entries.drop_first(), key, value));
        if entries[0].0 == other {
            assert(spec_lookup(up, other) == Some(entries[0].1));
        } else {
            assert(spec_lookup(up, other) == spec_lookup(up.drop_first(), other));
        }
    }
}

/// A scan that found no earlier match and stops at `k` agrees with the
/// recursive lookup.
proof fn lemma_lookup_scan<T>(entries: Seq<(Seq<char>, T)>, key: Seq<char>, k: int)
    requires
        0 <= k <= entries.len(),
        forall|t: int| 0 <= t < k ==> (#[trigger] entries[t]).0 != key,
        k < entries.len() ==> entries[k].0 == key,
    ensures
        k < entries.len() ==> spec_lookup(entries, key) == Some(entries[k].1),
        k == entries.len() ==> spec_lookup(entries, key) is None,
    decreases entries.len(),
{
    if entries.len() == 0 {
    } else if k == 0 {
        if !(entries[0].0 == key) {
            lemma_lookup_scan(entries.drop_first(), key, 0);
        }
    } else {
        assert(entries[0].0 != key);
        assert(forall|t: int|
            0 <= t < k - 1 ==> (#[trigger] entries.drop_first()[t]).0 != key);
        lemma_lookup_scan(entries.drop_first(), key, k - 1);
    }
}

/// Replacing the entry at the first match, or appending when there is
/// none, is the recursive upsert.
proof fn lemma_upsert_scan<T>(entries: Seq<(Seq<char>, T)>, key: Seq<char>, value: T, k: int)
    requires
        0 <= k <= entries.len(),
        forall|t: int| 0 <= t < k ==> (#[trigger] entries[t]).0 != key,
        k < entries.len() ==> entries[k].0 == key,
    ensures
        k < entries.len() ==> spec_upsert(entries, key, value) == entries.update(k, (key, value)),
        k == entries.len() ==> spec_upsert(entries, key, value) == entries.push((key, value)),
    decreases entries.len(),
{
    if entries.len() == 0 {
        assert(spec_upsert(entries, key, value) =~= entries.push((key, value)));
    } else if k == 0 {
        if entries[0].0 == key {
            assert(spec_upsert(entries, key, value) =~= entries.update(0, (key, value)));
        } else {
            lemma_upsert_scan(entries.drop_first(), key, value, 0);
            assert(spec_upsert(entries, key, value) =~= entries.push((key, value)));
        }
    } else {
        assert(entries[0].0 != key);
        assert(forall|t: int|
            0 <= t < k - 1 ==> (#[trigger] entries.drop_first()[t]).0 != key);
        lemma_upsert_scan(entries.drop_first(), key, value, k - 1);
        if k < entries.len() {
            assert(entries.drop_first().update(k - 1, (key, value)) =~= entries.update(
                k,
                (key, value),
            ).drop_first());
            assert(spec_upsert(entries, key, value) =~= entries.update(k, (key, value)));
        } else {
            assert(entries.drop_first().push((key, value)) =~= entries.push(
                (key, value),
            ).drop_first());
            assert(spec_upsert(entries, key, value) =~= entries.push((key, value)));
        }
    }
}

// ---------------------------------------------------------------------
// The registry itself.
// ---------------------------------------------------------------------
/// The daemon's root registry.
#[derive(Debug, PartialEq, Eq)]
pub struct DaemonState {
    /// Attached clusters, by cluster name.
    pub clusters: Vec<(String, ClusterState)>,
    /// The cluster served when a request names none.
    pub default_cluster: String,
    /// Stored cloud sessions, by profile name.
    pub aws_sessions: Vec<(String, AwsSession)>,
    /// What a `Version` request returns.
    pub version: VersionInfo,
}

pub ghost struct DaemonStateV {
    pub clusters: Seq<(Seq<char>, ClusterStateV)>,
    pub default_cluster: Seq<char>,
    pub sessions: Seq<(Seq<char>, AwsSessionV)>,
    pub version: VersionInfoV,
}

impl View for DaemonState {
    type V = DaemonStateV;

    open spec fn view(&self) -> DaemonStateV {
        DaemonStateV {
            clusters: self.clusters@.map_values(|e: (String, ClusterState)| (e.0@, e.1@)),
            default_cluster: self.default_cluster@,
            sessions: self.aws_sessions@.map_values(|e: (String, AwsSession)| (e.0@, e.1@)),
            version: self.version@,
        }
    }
}

impl DaemonState {
    /// An empty registry with a default cluster name and version
    /// information.
    pub fn new(default_cluster: String, version: VersionInfo) -> (r: DaemonState)
        ensures
            r@.clusters == Seq::<(Seq<char>, ClusterStateV)>::empty(),
            r@.sessions == Seq::<(Seq<char>, AwsSessionV)>::empty(),
            r@.default_cluster == default_cluster@,
            r@.version == version@,
    {
        let r = DaemonState {
            clusters: Vec::new(),
            default_cluster,
            aws_sessions: Vec::new(),
            version,
        };
        proof {
            assert(r@.clusters =~= Seq::<(Seq<char>, ClusterStateV)>::empty());
            assert(r@.sessions =~= Seq::<(Seq<char>, AwsSessionV)>::empty());
        }
        r
    }

    /// The cluster served when a request names none.
    pub fn default_cluster(&self) -> (r: &str)
        ensures
            r@ == self@.default_cluster,
    {
        self.default_cluster.as_str()
    }

    /// The stored session under this profile name, if any.
    pub fn get_session(&self, name: &str) -> (r: Option<AwsSession>)
        ensures
            match r {
                Some(s) => spec_lookup(self@.sessions, name@) == Some(s@),
                None => spec_lookup(self@.sessions, name@) is None,
            },
    {
        let key = name.to_owned();
        let mut k: usize = 0;
        while k < self.aws_sessions.len()
            invariant
                k <= self.aws_sessions@.len(),
                key@ == name@,
                self@.sessions.len() == self.aws_sessions@.len(),
                self@.sessions == self.aws_sessions@.map_values(
                    |e: (String, AwsSession)| (e.0@, e.1@),
                ),
                forall|t: int| 0 <= t < k ==> (#[trigger] self@.sessions[t]).0 != name@,
            decreases self.aws_sessions@.len() - k,
        {
            let e = &self.aws_sessions[k];
            proof {
                assert((e.0@, e.1@) == self@.sessions[k as int]);
            }
            if e.0.eq(&key) {
                proof {
                    lemma_lookup_scan(self@.sessions, name@, k as int);
                }
                return Some(e.1.clone());
            }
            k = k + 1;
        }
        proof {
            lemma_lookup_scan(self@.sessions, name@, self@.sessions.len() as int);
        }
        None
    }

    /// Stores or overwrites the session under this profile name.  A
    /// later login supersedes the earlier session; nothing else in the
    /// registry changes.
    pub fn put_session(&mut self, name: String, session: AwsSession)
        ensures
            final(self)@.sessions == spec_upsert(old(self)@.sessions, name@, session@),
            final(self)@.clusters == old(self)@.clusters,
            final(self)@.default_cluster == old(self)@.default_cluster,
            final(self)@.version == old(self)@.version,
    {
        let ghost entries = self@.sessions;
        let mut k: usize = 0;
        while k < self.aws_sessions.len()
            invariant
                k <= self.aws_sessions@.len(),
                entries.len() == self.aws_sessions@.len(),
                entries == self.aws_sessions@.map_values(
                    |e: (String, AwsSession)| (e.0@, e.1@),
                ),
                entries == old(self)@.sessions,
                self@.clusters == old(self)@.clusters,
                self@.default_cluster == old(self)@.default_cluster,
                self@.version == old(self)@.version,
                forall|t: int| 0 <= t < k ==> (#[trigger] entries[t]).0 != name@,
            decreases self.aws_sessions@.len() - k,
        {
            let hit = self.aws_sessions[k].0.eq(&name);
            proof {
                assert((self.aws_sessions@[k as int].0@, self.aws_sessions@[k as int].1@)
                    == entries[k as int]);
            }
            if hit {
                proof {
                    lemma_upsert_scan(entries, name@, session@, k as int);
                }
                self.aws_sessions.set(k, (name, session));
                proof {
                    assert(self@.sessions =~= entries.update(k as int, (name@, session@)));
                }
                return ;
            }
            k = k + 1;
        }
        proof {
            lemma_upsert_scan(entries, name@, session@, entries.len() as int);
        }
        self.aws_sessions.push((name, session));
        proof {
            assert(self@.sessions =~= entries.push((name@, session@)));
        }
    }

    /// The attached cluster under this name, if any.
    pub fn get_cluster(&self, name: &str) -> (r: Option<&ClusterState>)
        ensures
            match r {
                Some(cs) => spec_lookup(self@.clusters, name@) == Some(cs@),
                None => spec_lookup(self@.clusters, name@) is None,
            },
    {
        let key = name.to_owned();
        let mut k: usize = 0;
        while k < self.clusters.len()
            invariant
                k <= self.clusters@.len(),
                key@ == name@,
                self@.clusters.len() == self.clusters@.len(),
                self@.clusters == self.clusters@.map_values(
                    |e: (String, ClusterState)| (e.0@, e.1@),
                ),
                forall|t: int| 0 <= t < k ==> (#[trigger] self@.clusters[t]).0 != name@,
            decreases self.clusters@.len() - k,
        {
            let e = &self.clusters[k];
            proof {
                assert((e.0@, e.1@) == self@.clusters[k as int]);
            }
            if e.0.eq(&key) {
                proof {
                    lemma_lookup_scan(self@.clusters, name@, k as int);
                }
                return Some(&e.1);
            }
            k = k + 1;
        }
        proof {
            lemma_lookup_scan(self@.clusters, name@, self@.clusters.len() as int);
        }
        None
    }

    /// Registers an attached cluster under its name, superseding any
    /// earlier mirror with that name; nothing else changes.
    pub fn put_cluster(&mut self, name: String, cluster: ClusterState)
        ensures
            final(self)@.clusters == spec_upsert(old(self)@.clusters, name@, cluster@),
            final(self)@.sessions == old(self)@.sessions,
            final(self)@.default_cluster == old(self)@.default_cluster,
            final(self)@.version == old(self)@.version,
    {
        let ghost entries = self@.clusters;
        let ghost cluster_v = cluster@;
        let mut k: usize = 0;
        while k < self.clusters.len()
            invariant
                k <= self.clusters@.len(),
                cluster_v == cluster@,
                entries.len() == self.clusters@.len(),
                entries == self.clusters@.map_values(
                    |e: (String, ClusterState)| (e.0@, e.1@),
                ),
                entries == old(self)@.clusters,
                self@.sessions == old(self)@.sessions,
                self@.default_cluster == old(self)@.default_cluster,
                self@.version == old(self)@.version,
                forall|t: int| 0 <= t < k ==> (#[trigger] entries[t]).0 != name@,
            decreases self.clusters@.len() - k,
        {
            let hit = self.clusters[k].0.eq(&name);
            proof {
                assert((self.clusters@[k as int].0@, self.clusters@[k as int].1@)
                    == entries[k as int]);
            }
            if hit {
                proof {
                    lemma_upsert_scan(entries, name@, cluster_v, k as int);
                }
                let ghost oldvec = self.clusters@;
                self.clusters.set(k, (name, cluster));
                proof {
                    assert forall|t: int| 0 <= t < self@.clusters.len() implies self@.clusters[t]
                        == entries.update(k as int, (name@, cluster_v))[t] by {
                        assert(self.clusters@.map_values(
                            |e: (String, ClusterState)| (e.0@, e.1@),
                        )[t] == (self.clusters@[t].0@, self.clusters@[t].1@));
                        if t != k as int {
                            assert(self.clusters@[t] == oldvec[t]);
                            assert(oldvec.map_values(|e: (String, ClusterState)| (e.0@, e.1@))[t]
                                == (oldvec[t].0@, oldvec[t].1@));
                        }
                    }
                    assert(self@.clusters =~= entries.update(k as int, (name@, cluster_v)));
                }
                return ;
            }
            k = k + 1;
        }
        proof {
            lemma_upsert_scan(entries, name@, cluster_v, entries.len() as int);
        }
        let ghost oldvec = self.clusters@;
        self.clusters.push((name, cluster));
        proof {
            assert forall|t: int| 0 <= t < self@.clusters.len() implies self@.clusters[t]
                == entries.push((name@, cluster_v))[t] by {
                assert(self.clusters@.map_values(
                    |e: (String, ClusterState)| (e.0@, e.1@),
                )[t] == (self.clusters@[t].0@, self.clusters@[t].1@));
                if t < oldvec.len() {
                    assert(self.clusters@[t] == oldvec[t]);
                    assert(oldvec.map_values(|e: (String, ClusterState)| (e.0@, e.1@))[t]
                        == (oldvec[t].0@, oldvec[t].1@));
                }
            }
            assert(self@.clusters =~= entries.push((name@, cluster_v)));
        }
    }

    /// Routes one watch event into the mirror of the named cluster.
    /// An event for a cluster that is not attached changes nothing.
    pub fn apply_cluster_event(&mut self, name: &str, ev: WatchEvent)
        ensures
            final(self)@.sessions == old(self)@.sessions,
            final(self)@.default_cluster == old(self)@.default_cluster,
            final(self)@.version == old(self)@.version,
            final(self)@.clusters == spec_route_event(old(self)@.clusters, name@, ev@),
    {
        let key = name.to_owned();
        let ghost entries = self@.clusters;
        let mut k: usize = 0;
        while k < self.clusters.len()
            invariant
                k <= self.clusters@.len(),
                key@ == name@,
                entries.len() == self.clusters@.len(),
                entries == self.clusters@.map_values(
                    |e: (String, ClusterState)| (e.0@, e.1@),
                ),
                self@.clusters == entries,
                entries == old(self)@.clusters,
                self@.sessions == old(self)@.sessions,
                self@.default_cluster == old(self)@.default_cluster,
                self@.version == old(self)@.version,
                forall|t: int| 0 <= t < k ==> (#[trigger] entries[t]).0 != name@,
            decreases self.clusters@.len() - k,
        {
            let hit = self.clusters[k].0.eq(&key);
            proof {
                assert((self.clusters@[k as int].0@, self.clusters@[k as int].1@)
                    == entries[k as int]);
            }
            if hit {
                proof {
                    lemma_route_event_scan(entries, name@, ev@, k as int);
                }
                let mut pair = self.clusters.remove(k);
                pair.1.apply(ev);
                self.clusters.insert(k, pair);
                proof {
                    assert(self@.clusters =~= entries.update(
                        k as int,
                        (
                            entries[k as int].0,
                            ClusterStateV {
                                name: entries[k as int].1.name,
                                pods: crate::mirror::spec_apply_event(entries[k as int].1.pods, ev@),
                            },
                        ),
                    ));
                }
                return ;
            }
            k = k + 1;
        }
        proof {
            lemma_route_event_scan(entries, name@, ev@, entries.len() as int);
        }
    }
}

/// What routing one event does to the cluster list: the first cluster
/// with the name takes the event into its mirror; the rest, and a list
/// without that name, stay as they are.
pub open spec fn spec_route_event(
    entries: Seq<(Seq<char>, ClusterStateV)>,
    name: Seq<char>,
    ev: crate::mirror::WatchEventV,
) -> Seq<(Seq<char>, ClusterStateV)>
    decreases entries.len(),
{
    if entries.len() == 0 {
        entries
    } else if entries[0].0 == name {
        seq![
            (
                entries[0].0,
                ClusterStateV {
                    name: entries[0].1.name,
                    pods: crate::mirror::spec_apply_event(entries[0].1.pods, ev),
                },
            ),
        ] + entries.drop_first()
    } else {
        seq![entries[0]] + spec_route_event(entries.drop_first(), name, ev)
    }
}

/// The scan that routes an event agrees with the recursive routing.
proof fn lemma_route_event_scan(
    entries: Seq<(Seq<char>, ClusterStateV)>,
    name: Seq<char>,
    ev: crate::mirror::WatchEventV,
    k: int,
)
    requires
        0 <= k <= entries.len(),
        forall|t: int| 0 <= t < k ==> (#[trigger] entries[t]).0 != name,
        k < entries.len() ==> entries[k].0 == name,
    ensures
        k < entries.len() ==> spec_route_event(entries, name, ev) == entries.update(
            k,
            (
                entries[k].0,
                ClusterStateV {
                    name: entries[k].1.name,
                    pods: crate::mirror::spec_apply_event(entries[k].1.pods, ev),
                },
            ),
        ),
        k == entries.len() ==> spec_route_event(entries, name, ev) == entries,
    decreases entries.len(),
{
    if entries.len() == 0 {
    } else if k == 0 {
        if entries[0].0 == name {
            assert(spec_route_event(entries, name, ev) =~= entries.update(
                0,
                (
                    entries[0].0,
                    ClusterStateV {
                        name: entries[0].1.name,
                        pods: crate::mirror::spec_apply_event(entries[0].1.pods, ev),
                    },
                ),
            ));
        } else {
            lemma_route_event_scan(entries.drop_first(), name, ev, 0);
            assert(spec_route_event(entries, name, ev) =~= entries);
        }
    } else {
        assert(entries[0].0 != name);
        assert(forall|t: int|
            0 <= t < k - 1 ==> (#[trigger] entries.drop_first()[t]).0 != name);
        lemma_route_event_scan(entries.drop_first(), name, ev, k - 1);
        if k < entries.len() {
            let upd = (
                entries[k].0,
                ClusterStateV {
                    name: entries[k].1.name,
                    pods: crate::mirror::spec_apply_event(entries[k].1.pods, ev),
                },
            );
            assert(entries.drop_first().update(k - 1, upd) =~= entries.update(
                k,
                upd,
            ).drop_first());
            assert(spec_route_event(entries, name, ev) =~= entries.update(k, upd));
        } else {
            assert(spec_route_event(entries, name, ev) =~= entries);
        }
    }
}

} // verus!
