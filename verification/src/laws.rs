//! What callers may rely on, stated over what the functions are given and what
//! they give back.

pub mod access;
pub mod batch;
pub mod build_runner;
pub mod capabilities;
pub mod consumer_owners;
pub mod diagnostics;
pub mod discovery_owners;
pub mod disk_pressure;
pub mod egress_owners;
pub mod events;
pub mod gpu;
pub mod health;
pub mod queries;
pub mod recovery;
pub mod requests;
pub mod text;
pub mod values;
