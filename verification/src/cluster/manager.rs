//! The settings that a cluster manager starts from.

use vstd::prelude::*;

use crate::cluster::failover::FailoverConfig;
use crate::cluster::types::{default_cluster_fields, ClusterConfig};

verus! {

/// What a cluster manager is built from: the node's cluster settings,
/// whether routing state is synchronised from the leader, and the timing
/// of failure detection.
#[derive(Debug, Clone)]
pub struct ClusterManagerConfig {
    pub cluster: ClusterConfig,
    pub enable_state_sync: bool,
    pub failover_config: FailoverConfig,
}

impl Default for ClusterManagerConfig {
    /// The default cluster settings, state synchronisation on, the default
    /// failure-detection timing.
    fn default() -> (r: Self)
        ensures
            default_cluster_fields(r.cluster),
            r.enable_state_sync,
            r.failover_config == (FailoverConfig {
                max_failures: 3,
                health_check_interval_ms: 5000,
                suspect_timeout_ms: 15000,
                dead_timeout_ms: 30000,
            }),
    {
        ClusterManagerConfig {
            cluster: ClusterConfig::default(),
            enable_state_sync: true,
            failover_config: FailoverConfig::default(),
        }
    }
}

} // verus!
