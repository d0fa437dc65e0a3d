//! Cluster coordination and task distribution: membership, health, leader
//! election, majority-vote consensus and load-aware scheduling, with every
//! operation verified against a mathematical model of its state.

pub mod an_node;
pub mod api;
pub mod authentication;
pub mod backup;
mod clock;
pub mod cluster;
pub mod config;
pub mod consensus;
pub mod dht;
pub mod election;
pub mod health;
pub mod ki_node;
pub mod load_balancer;
pub mod logging_metrics;
pub mod network;
pub mod node_registry;
pub mod principal;
pub mod quorum;
pub mod retry;
pub mod scheduler;
pub mod security;
pub mod table;
pub mod task_recovery;
pub mod validation;
