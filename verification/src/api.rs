//! Decisions of the node's HTTP API.

pub mod activity;
pub mod agent;
pub mod apply;
pub mod audit;
pub mod commit;
pub mod dashboard;
pub mod faults;
pub mod forwarding;
pub mod history;
pub mod leases;
pub mod logs;
pub mod metrics;
pub mod routes;
pub mod security;
pub mod trace;
pub mod upgrades;
pub mod webhook;
pub mod workloads;
