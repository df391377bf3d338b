//! The vocabulary of the clustering surface: node roles, health, capacity,
//! consensus proposals and replication descriptions. Consensus itself is an
//! external collaborator; the registry only carries these descriptions.
use vstd::prelude::*;

verus! {

#[derive(Clone)]
pub enum NodeRole {
    Leader,
    Follower,
    Candidate,
    Observer,
}

#[derive(Clone)]
pub enum NodeStatus {
    Healthy,
    Degraded,
    Unhealthy,
    Unknown,
    Joining,
    Leaving,
}

#[derive(Clone)]
pub struct NodeCapacity {
    pub cpu_cores: u32,
    pub memory_gb: u64,
    pub storage_gb: u64,
    pub network_bandwidth_mbps: u64,
}

#[derive(Clone)]
pub enum ProposalType {
    ConfigChange,
    NodeJoin,
    NodeLeave,
    StateChange,
    Custom(String),
}

#[derive(Clone)]
pub struct ReplicationData {
    pub id: String,
    pub type_: ReplicationType,
    pub data: Vec<u8>,
    pub version: u64,
    pub checksum: String,
}

#[derive(Clone)]
pub enum ReplicationType {
    Metadata,
    Configuration,
    State,
    Cache,
}

#[derive(Clone)]
pub struct HealthChecker {
    pub check_interval_seconds: u64,
    pub timeout_seconds: u64,
}

#[derive(Clone)]
pub struct StateReplicator {
    pub replication_factor: usize,
    pub consistency_level: ConsistencyLevel,
}

#[derive(Clone)]
pub enum ConsistencyLevel {
    Strong,
    Quorum,
    Weak,
    Eventual,
}

#[derive(Clone)]
pub enum LoadBalancingStrategy {
    RoundRobin,
    LeastConnections,
    WeightedRoundRobin,
    Random,
    ConsistentHashing,
}

#[derive(Clone)]
pub enum ClusterEvent {
    NodeJoined { node_id: String },
    NodeLeft { node_id: String },
    LeaderElected { node_id: String },
    NodeStatusChanged { node_id: String, status: NodeStatus },
    ReplicationCompleted { data_id: String },
    ConsensusReached { proposal_id: String },
}

} // verus!
