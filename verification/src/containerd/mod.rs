//! Containers under containerd.
pub mod client;
pub mod cni;
pub mod health_check;
pub mod image;
pub mod instances;
pub mod lifecycle;
pub mod logs;
pub mod oci;
pub mod stats;
