//! Runtime layer of a workload orchestrator.
pub mod api_client;
pub mod classifier;
pub mod cloud_hypervisor;
pub mod containerd;
pub mod docker;
pub mod docker_classic;
pub mod entries;
pub mod error;
pub mod firecracker;
pub mod foreign;
pub mod host_net;
pub mod lifecycle_trait;
pub mod mock;
pub mod models;
pub mod paths;
pub mod podman;
pub mod port_forwarder;
pub mod quantities;
pub mod registry_auth;
pub mod resources;
pub mod runtime;
pub mod stats;
pub mod steps;
pub mod text;
pub mod wire;
