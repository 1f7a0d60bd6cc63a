//! Micro virtual machines under Firecracker.
pub mod boot;
pub mod client;
pub mod lifecycle;
pub mod processes;
pub mod reconcile;
pub mod volumes;
