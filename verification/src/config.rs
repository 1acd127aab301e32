//! The daemon's configuration, as plain values.  Reading and
//! deserialising the configuration file and the environment happen
//! outside the library; this module assembles and interprets the
//! values.

use vstd::prelude::*;

verus! {

/// The daemon-wide section.
#[derive(Debug, PartialEq, Eq)]
pub struct KopsSection {
    pub default_cluster: Option<String>,
}

/// One configured cluster.
#[derive(Debug, PartialEq, Eq)]
pub struct ClusterConfig {
    pub name: String,
    pub kubeconfig: Option<String>,
    pub context: Option<String>,
    pub namespaces: Option<Vec<String>>,
}

/// How the daemon process detaches, when it does.
#[derive(Debug, PartialEq, Eq)]
pub struct DaemonConfig {
    pub pid_file: Option<String>,
    pub stdout: Option<String>,
    pub stderr: Option<String>,
    pub user: Option<String>,
    pub group: Option<String>,
}

/// The whole configuration.
#[derive(Debug, PartialEq, Eq)]
pub struct KopsdConfig {
    pub kops: KopsSection,
    pub daemon: Option<DaemonConfig>,
    pub cluster: Vec<ClusterConfig>,
}

/// Assembles the daemon's configuration from its parsed sections.
pub fn load(kops: KopsSection, daemon: Option<DaemonConfig>, cluster: Vec<ClusterConfig>) -> (r:
    KopsdConfig)
    ensures
        r.kops == kops,
        r.daemon == daemon,
        r.cluster == cluster,
{
    KopsdConfig { kops, daemon, cluster }
}

impl KopsdConfig {
    /// The effective default cluster: the configured one, or the name
    /// of the first configured cluster, or nothing when the
    /// configuration names no cluster at all.
    pub fn default_cluster_name(&self) -> (r: Option<String>)
        ensures
            match self.kops.default_cluster {
                Some(d) => r matches Some(x) && x@ == d@,
                None => if self.cluster@.len() > 0 {
                    r matches Some(x) && x@ == self.cluster@[0].name@
                } else {
                    r is None
                },
            },
    {
        match &self.kops.default_cluster {
            Some(d) => Some(d.clone()),
            None => {
                if self.cluster.len() > 0 {
                    Some(self.cluster[0].name.clone())
                } else {
                    None
                }
            },
        }
    }
}

} // verus!
