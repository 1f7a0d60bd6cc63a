//! The network device of a VM without an address of its own.
use vstd::prelude::*;
use crate::cloud_hypervisor::client::NetConfig;

verus! {

/// Whether a network device leaves everything to the VMM.
pub open spec fn unconfigured(n: NetConfig) -> bool {
    n.tap is None && n.ip is None && n.mask is None && n.mac is None
}

/// A network device that leaves everything to the VMM.
pub fn default_net() -> (r: NetConfig)
    ensures
        unconfigured(r),
{
    NetConfig { tap: None, ip: None, mask: None, mac: None }
}

/// The network of a VM for which nothing is configured: one device, for which
/// the VMM creates the interface itself.
pub fn build_net_config() -> (r: Vec<NetConfig>)
    ensures
        r.len() == 1,
        unconfigured(r@[0]),
{
    let mut out: Vec<NetConfig> = Vec::new();
    out.push(default_net());
    out
}

} // verus!
