//! Virtual machines under Cloud Hypervisor.
pub mod client;
pub mod cloud_init;
pub mod console_logs;
pub mod image;
pub mod lifecycle;
pub mod network;
pub mod reconcile;
pub mod runtime_impl;
pub mod shares;
pub mod start;
pub mod stats;
