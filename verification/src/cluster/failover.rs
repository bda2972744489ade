//! Failure detection for cluster nodes.
//!
//! Each node's last heartbeat is tracked. A node silent for longer than the
//! suspect timeout becomes suspected (once per silence, counting the
//! failure); silent for longer than the dead timeout, it is dead. A
//! heartbeat makes it alive again. Each transition is reported as an event
//! for the caller to deliver.

use dashmap::DashMap;
use vstd::prelude::*;

use crate::bridge::maps::{
    health_entries, health_get, health_insert, health_new, health_remove, health_statuses,
};
use crate::cluster::types::NodeId;
use crate::utils::now_millis;

verus! {

/// What is believed of a node.
#[derive(Debug, Clone, Copy, PartialEq, Eq, Structural)]
pub enum NodeStatus {
    /// It answers.
    Alive,
    /// It may be down.
    Suspected,
    /// It is down.
    Dead,
}

/// The health record of a node.
#[derive(Debug, Clone)]
pub struct NodeHealth {
    pub node_id: String,
    pub status: NodeStatus,
    /// Last heartbeat, in milliseconds since the Unix epoch.
    pub last_heartbeat: u64,
    /// Consecutive suspicions since the last heartbeat.
    pub failure_count: u32,
    /// Last check, in milliseconds since the Unix epoch.
    pub last_check: u64,
}

/// A health record as plain values.
#[verifier::ext_equal]
pub ghost struct HealthView {
    pub node_id: Seq<char>,
    pub status: NodeStatus,
    pub last_heartbeat: u64,
    pub failure_count: u32,
    pub last_check: u64,
}

impl NodeHealth {
    /// The record as plain values.
    pub open spec fn view(&self) -> HealthView {
        HealthView {
            node_id: self.node_id@,
            status: self.status,
            last_heartbeat: self.last_heartbeat,
            failure_count: self.failure_count,
            last_check: self.last_check,
        }
    }
}

/// The timing of failure detection.
#[derive(Debug, Clone, Copy, PartialEq, Eq, Structural)]
pub struct FailoverConfig {
    /// Consecutive failures before a node counts as dead.
    pub max_failures: u32,
    /// How often health is checked, in milliseconds.
    pub health_check_interval_ms: u64,
    /// Silence after which a node is suspected, in milliseconds.
    pub suspect_timeout_ms: u64,
    /// Silence after which a node is dead, in milliseconds.
    pub dead_timeout_ms: u64,
}

impl Default for FailoverConfig {
    fn default() -> (r: Self)
        ensures
            r == (FailoverConfig {
                max_failures: 3,
                health_check_interval_ms: 5000,
                suspect_timeout_ms: 15000,
                dead_timeout_ms: 30000,
            }),
    {
        FailoverConfig {
            max_failures: 3,
            health_check_interval_ms: 5000,
            suspect_timeout_ms: 15000,
            dead_timeout_ms: 30000,
        }
    }
}

/// A change in what is believed of a node.
#[derive(Debug, Clone)]
pub enum FailoverEvent {
    NodeSuspected { node_id: String, failure_count: u32 },
    NodeDead { node_id: String },
    NodeRecovered { node_id: String },
    LeaderFailed { old_leader_id: String },
}

/// An event as plain values.
pub ghost enum EventView {
    NodeSuspected { node_id: Seq<char>, failure_count: u32 },
    NodeDead { node_id: Seq<char> },
    NodeRecovered { node_id: Seq<char> },
    LeaderFailed { old_leader_id: Seq<char> },
}

impl FailoverEvent {
    pub open spec fn view(&self) -> EventView {
        match self {
            FailoverEvent::NodeSuspected { node_id, failure_count } => EventView::NodeSuspected {
                node_id: node_id@,
                failure_count: *failure_count,
            },
            FailoverEvent::NodeDead { node_id } => EventView::NodeDead { node_id: node_id@ },
            FailoverEvent::NodeRecovered { node_id } => EventView::NodeRecovered {
                node_id: node_id@,
            },
            FailoverEvent::LeaderFailed { old_leader_id } => EventView::LeaderFailed {
                old_leader_id: old_leader_id@,
            },
        }
    }
}

/// The event views of an optional event.
pub open spec fn event_view(e: Option<FailoverEvent>) -> Option<EventView> {
    match e {
        Some(x) => Some(x.view()),
        None => None,
    }
}

/// Milliseconds between two instants, zero if `now` is earlier.
pub open spec fn elapsed(now: u64, since: u64) -> u64 {
    if now >= since {
        (now - since) as u64
    } else {
        0
    }
}

/// A check at time `now` of the record of node `id`: the new record and the
/// event.
pub open spec fn checked(h: HealthView, id: Seq<char>, now: u64, c: FailoverConfig) -> (
    HealthView,
    Option<EventView>,
) {
    let e = elapsed(now, h.last_heartbeat);
    if e > c.dead_timeout_ms {
        (
            HealthView { status: NodeStatus::Dead, last_check: now, ..h },
            Some(EventView::NodeDead { node_id: id }),
        )
    } else if e > c.suspect_timeout_ms && h.status != NodeStatus::Suspected {
        let n = (h.failure_count + 1) as u32;
        (
            HealthView { status: NodeStatus::Suspected, failure_count: n, last_check: now, ..h },
            Some(EventView::NodeSuspected { node_id: id, failure_count: n }),
        )
    } else {
        (HealthView { last_check: now, ..h }, None)
    }
}

/// The record of a node first seen at time `now`.
pub open spec fn fresh_health(id: Seq<char>, now: u64) -> HealthView {
    HealthView {
        node_id: id,
        status: NodeStatus::Alive,
        last_heartbeat: now,
        failure_count: 0,
        last_check: now,
    }
}

/// A heartbeat from node `id` at time `now`: the new record and the event.
pub open spec fn heartbeat(
    old: Option<HealthView>,
    id: Seq<char>,
    now: u64,
) -> (HealthView, Option<EventView>) {
    match old {
        Some(h) => {
            let recovered = h.status == NodeStatus::Suspected || h.status == NodeStatus::Dead;
            (
                HealthView {
                    status: NodeStatus::Alive,
                    last_heartbeat: now,
                    failure_count: 0,
                    ..h
                },
                if recovered {
                    Some(EventView::NodeRecovered { node_id: id })
                } else {
                    None
                },
            )
        },
        None => (fresh_health(id, now), None),
    }
}

/// Tracks the health of the known nodes.
pub struct FailoverManager {
    local_node_id: NodeId,
    node_health: DashMap<String, NodeHealth>,
    config: FailoverConfig,
}

impl FailoverManager {
    /// The health records, by node id.
    pub closed spec fn health(&self) -> Map<Seq<char>, HealthView> {
        health_entries(self.node_health)
    }

    /// The configuration.
    pub closed spec fn config_view(&self) -> FailoverConfig {
        self.config
    }

    /// The local node.
    pub closed spec fn local(&self) -> Seq<char> {
        self.local_node_id@
    }

    /// A manager that tracks no node, with the default timing.
    pub fn new(local_node_id: NodeId) -> (r: Self)
        ensures
            r.health() == Map::<Seq<char>, HealthView>::empty(),
            r.local() == local_node_id@,
            r.config_view() == (FailoverConfig {
                max_failures: 3,
                health_check_interval_ms: 5000,
                suspect_timeout_ms: 15000,
                dead_timeout_ms: 30000,
            }),
    {
        FailoverManager {
            local_node_id,
            node_health: health_new(),
            config: FailoverConfig::default(),
        }
    }

    /// A manager that tracks no node, with the given timing.
    pub fn with_config(local_node_id: NodeId, config: FailoverConfig) -> (r: Self)
        ensures
            r.health() == Map::<Seq<char>, HealthView>::empty(),
            r.local() == local_node_id@,
            r.config_view() == config,
    {
        FailoverManager { local_node_id, node_health: health_new(), config }
    }

    /// Checks one node at time `now` (milliseconds): marks it dead or
    /// suspected by how long it has been silent, and reports the change. An
    /// untracked node is left alone.
    pub fn check_node_health(&mut self, node_id: &str, now: u64) -> (r: Option<FailoverEvent>)
        requires
            old(self).health().contains_key(node_id@) ==> old(self).health()[node_id@].failure_count
                < u32::MAX,
        ensures
            final(self).config_view() == old(self).config_view(),
            final(self).local() == old(self).local(),
            match old(self).health().get(node_id@) {
                Some(h) => {
                    let (h2, e) = checked(h, node_id@, now, old(self).config_view());
                    &&& final(self).health() == old(self).health().insert(node_id@, h2)
                    &&& event_view(r) == e
                },
                None => final(self).health() == old(self).health() && r is None,
            },
    {
        match health_get(&self.node_health, node_id) {
            None => None,
            Some(h) => {
                let mut h = h;
                let since = if now >= h.last_heartbeat {
                    now - h.last_heartbeat
                } else {
                    0
                };
                let mut event: Option<FailoverEvent> = None;
                if since > self.config.dead_timeout_ms {
                    h.status = NodeStatus::Dead;
                    event = Some(FailoverEvent::NodeDead { node_id: String::from_str(node_id) });
                } else if since > self.config.suspect_timeout_ms {
                    if h.status != NodeStatus::Suspected {
                        h.status = NodeStatus::Suspected;
                        h.failure_count = h.failure_count + 1;
                        event = Some(
                            FailoverEvent::NodeSuspected {
                                node_id: String::from_str(node_id),
                                failure_count: h.failure_count,
                            },
                        );
                    }
                }
                h.last_check = now;
                health_insert(&mut self.node_health, String::from_str(node_id), h);
                event
            },
        }
    }

    /// Records a heartbeat from a node at time `now`: it is alive with no
    /// failures. A node that was suspected or dead is reported recovered; an
    /// unknown node starts being tracked.
    pub fn record_heartbeat_at(&mut self, node_id: &str, now: u64) -> (r: Option<FailoverEvent>)
        ensures
            final(self).config_view() == old(self).config_view(),
            final(self).local() == old(self).local(),
            ({
                let (h2, e) = heartbeat(old(self).health().get(node_id@), node_id@, now);
                &&& final(self).health() == old(self).health().insert(node_id@, h2)
                &&& event_view(r) == e
            }),
    {
        match health_get(&self.node_health, node_id) {
            Some(h) => {
                let mut h = h;
                let recovered = h.status == NodeStatus::Suspected || h.status == NodeStatus::Dead;
                h.last_heartbeat = now;
                h.failure_count = 0;
                h.status = NodeStatus::Alive;
                health_insert(&mut self.node_health, String::from_str(node_id), h);
                if recovered {
                    Some(FailoverEvent::NodeRecovered { node_id: String::from_str(node_id) })
                } else {
                    None
                }
            },
            None => {
                let h = NodeHealth {
                    node_id: String::from_str(node_id),
                    status: NodeStatus::Alive,
                    last_heartbeat: now,
                    failure_count: 0,
                    last_check: now,
                };
                health_insert(&mut self.node_health, String::from_str(node_id), h);
                None
            },
        }
    }

    /// Records a heartbeat from a node, now.
    pub fn record_heartbeat(&mut self, node_id: &str) -> (r: Option<FailoverEvent>)
        ensures
            final(self).config_view() == old(self).config_view(),
            final(self).local() == old(self).local(),
            exists|now: u64|
                {
                    let (h2, e) = #[trigger] heartbeat(old(self).health().get(node_id@), node_id@, now);
                    &&& final(self).health() == old(self).health().insert(node_id@, h2)
                    &&& event_view(r) == e
                },
    {
        let now = now_millis();
        self.record_heartbeat_at(node_id, now)
    }

    /// The status of a node, if it is tracked.
    pub fn get_node_status(&self, node_id: &str) -> (r: Option<NodeStatus>)
        ensures
            match self.health().get(node_id@) {
                Some(h) => r == Some(h.status),
                None => r is None,
            },
    {
        match health_get(&self.node_health, node_id) {
            Some(h) => Some(h.status),
            None => None,
        }
    }

    /// Every tracked node with its status, once each, in an unspecified
    /// order.
    pub fn get_all_node_status(&self) -> (r: Vec<(String, NodeStatus)>)
        ensures
            forall|i: int, j: int| 0 <= i < j < r@.len() ==> r@[i].0@ != r@[j].0@,
            forall|i: int|
                0 <= i < r@.len() ==> self.health().contains_key(#[trigger] r@[i].0@)
                    && self.health()[r@[i].0@].status == r@[i].1,
            forall|k: Seq<char>|
                self.health().contains_key(k) ==> exists|i: int| 0 <= i < r@.len() && r@[i].0@ == k,
    {
        health_statuses(&self.node_health)
    }

    /// Whether a node is tracked and alive.
    pub fn is_node_alive(&self, node_id: &str) -> (r: bool)
        ensures
            r <==> (self.health().contains_key(node_id@) && self.health()[node_id@].status
                == NodeStatus::Alive),
    {
        match health_get(&self.node_health, node_id) {
            Some(h) => h.status == NodeStatus::Alive,
            None => false,
        }
    }

    /// Starts tracking a node at time `now`, as alive; a tracked node is
    /// left as it is.
    pub fn add_node_at(&mut self, node_id: String, now: u64)
        ensures
            final(self).config_view() == old(self).config_view(),
            final(self).local() == old(self).local(),
            old(self).health().contains_key(node_id@) ==> final(self).health() == old(self).health(),
            !old(self).health().contains_key(node_id@) ==> final(self).health() == old(
                self,
            ).health().insert(node_id@, fresh_health(node_id@, now)),
    {
        match health_get(&self.node_health, node_id.as_str()) {
            Some(_) => {},
            None => {
                let h = NodeHealth {
                    node_id: node_id.clone(),
                    status: NodeStatus::Alive,
                    last_heartbeat: now,
                    failure_count: 0,
                    last_check: now,
                };
                health_insert(&mut self.node_health, node_id, h);
            },
        }
    }

    /// Starts tracking a node, now.
    pub fn add_node(&mut self, node_id: String)
        ensures
            final(self).config_view() == old(self).config_view(),
            final(self).local() == old(self).local(),
            old(self).health().contains_key(node_id@) ==> final(self).health() == old(self).health(),
            !old(self).health().contains_key(node_id@) ==> exists|now: u64|
                final(self).health() == old(self).health().insert(
                    node_id@,
                    #[trigger] fresh_health(node_id@, now),
                ),
    {
        let now = now_millis();
        self.add_node_at(node_id, now)
    }

    /// Stops tracking a node.
    pub fn remove_node(&mut self, node_id: &str)
        ensures
            final(self).config_view() == old(self).config_view(),
            final(self).local() == old(self).local(),
            final(self).health() == old(self).health().remove(node_id@),
    {
        health_remove(&mut self.node_health, node_id);
    }

    /// The event that reports a failed leader.
    pub fn handle_leader_failure(&self, leader_id: &str) -> (r: FailoverEvent)
        ensures
            r.view() == (EventView::LeaderFailed { old_leader_id: leader_id@ }),
    {
        FailoverEvent::LeaderFailed { old_leader_id: String::from_str(leader_id) }
    }

    /// The timing.
    pub fn config(&self) -> (r: &FailoverConfig)
        ensures
            *r == self.config_view(),
    {
        &self.config
    }

    /// Replaces the timing.
    pub fn set_config(&mut self, config: FailoverConfig)
        ensures
            final(self).config_view() == config,
            final(self).health() == old(self).health(),
            final(self).local() == old(self).local(),
    {
        self.config = config;
    }
}

/// A heartbeat always leaves the node alive with no failures, heard from at
/// that time; it reports a recovery exactly when the node was suspected or
/// dead.
pub proof fn lemma_heartbeat_revives(old: Option<HealthView>, id: Seq<char>, now: u64)
    ensures
        heartbeat(old, id, now).0.status == NodeStatus::Alive,
        heartbeat(old, id, now).0.failure_count == 0,
        heartbeat(old, id, now).0.last_heartbeat == now,
        heartbeat(old, id, now).1 is Some <==> (old matches Some(h) && h.status != NodeStatus::Alive),
{
}

/// A node silent for longer than the dead timeout is dead after a check; one
/// heard from within the suspect timeout keeps its status.
pub proof fn lemma_check_by_silence(h: HealthView, id: Seq<char>, now: u64, c: FailoverConfig)
    ensures
        elapsed(now, h.last_heartbeat) > c.dead_timeout_ms ==> checked(h, id, now, c).0.status
            == NodeStatus::Dead,
        elapsed(now, h.last_heartbeat) <= c.suspect_timeout_ms && elapsed(now, h.last_heartbeat)
            <= c.dead_timeout_ms ==> checked(h, id, now, c).0.status == h.status && checked(
            h,
            id,
            now,
            c,
        ).1 is None,
        checked(h, id, now, c).0.last_heartbeat == h.last_heartbeat,
{
}

} // verus!
