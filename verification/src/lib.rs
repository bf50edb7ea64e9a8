//! Decision logic of the Bun node agent.

pub mod access;
pub mod api;
pub mod batch;
pub mod build_runner;
pub mod capabilities;
pub mod clock;
pub mod codec;
pub mod consumer_owners;
pub mod diagnostics;
pub mod discovery_owners;
pub mod disk_pressure;
pub mod egress_owners;
pub mod events;
pub mod gpu;
pub mod health;
pub mod instances;
pub mod laws;
pub mod membership;
pub mod ordered_map;
pub mod policy;
pub mod reply;
pub mod services;
pub mod sorting;
pub mod text;
pub mod value;
