//! Settings of the runtime.
use vstd::prelude::*;
use crate::error::{RuntimeError, RuntimeErrorView};
use crate::registry_auth::HostAuthSettings;
use crate::text::{cat4, contains, copy_opt, occurs_at};

verus! {

/// Where the layers of an image are unpacked to.
pub const DEFAULT_SNAPSHOTTER: &'static str = "overlayfs";

/// What runs the containers.
pub const DEFAULT_RUNTIME: &'static str = "io.containerd.runc.v2";

/// The label under which a container records the deployment that it belongs
/// to.
pub const RING_DEPLOYMENT_LABEL: &'static str = "ring_deployment";

/// Settings as the operator writes them.
#[derive(Debug)]
pub struct ContainerdConfig {
    pub socket: String,
    pub namespace: String,
    pub use_host_registry_auth: bool,
    pub host_registry_config: Option<String>,
}

/// Settings of the runtime, ready to use.
#[derive(Debug)]
pub struct ContainerdRuntimeConfig {
    pub socket: String,
    pub namespace: String,
    pub host_auth: HostAuthSettings,
}

impl ContainerdRuntimeConfig {
    /// The operator's settings.
    pub fn from_user_config(cfg: &ContainerdConfig) -> (r: Self)
        ensures
            r.socket == cfg.socket,
            r.namespace == cfg.namespace,
            r.host_auth.authorized == cfg.use_host_registry_auth,
            r.host_auth.config_path == cfg.host_registry_config,
    {
        ContainerdRuntimeConfig {
            socket: cfg.socket.clone(),
            namespace: cfg.namespace.clone(),
            host_auth: HostAuthSettings {
                authorized: cfg.use_host_registry_auth,
                config_path: copy_opt(&cfg.host_registry_config),
            },
        }
    }
}

/// The runtime.
#[derive(Debug)]
pub struct ContainerdLifecycle {
    pub config: ContainerdRuntimeConfig,
}

impl ContainerdLifecycle {
    /// The runtime with these settings.
    pub fn new(config: ContainerdRuntimeConfig) -> (r: Self)
        ensures
            r.config == config,
    {
        ContainerdLifecycle { config }
    }

    /// The error for a socket that cannot be connected to.
    pub fn connect_error(&self, text: &str) -> (r: RuntimeError)
        ensures
            r@ == RuntimeErrorView::Other(
                "failed to connect to containerd socket "@ + self.config.socket@ + ": "@ + text@,
            ),
    {
        RuntimeError::Other(
            cat4(
                "failed to connect to containerd socket ",
                self.config.socket.as_str(),
                ": ",
                text,
            ),
        )
    }

    /// The error for a daemon that does not say its version.
    pub fn version_error(&self, text: &str) -> (r: RuntimeError)
        ensures
            r@ == RuntimeErrorView::Other(
                "containerd at "@ + self.config.socket@ + " did not answer Version: "@ + text@,
            ),
    {
        RuntimeError::Other(
            cat4(
                "containerd at ",
                self.config.socket.as_str(),
                " did not answer Version: ",
                text,
            ),
        )
    }
}

/// The settings are the operator's, and what goes wrong with the daemon names its
/// socket and ends with the cause.
pub proof fn law_settings_are_the_operators(
    cfg: &ContainerdConfig,
    r: ContainerdRuntimeConfig,
    l: &ContainerdLifecycle,
    text: &str,
    unreachable: RuntimeError,
    silent: RuntimeError,
)
    requires
        call_ensures(ContainerdRuntimeConfig::from_user_config, (cfg,), r),
        call_ensures(ContainerdLifecycle::connect_error, (l, text), unreachable),
        call_ensures(ContainerdLifecycle::version_error, (l, text), silent),
    ensures
        r.socket@ == cfg.socket@,
        r.namespace@ == cfg.namespace@,
        r.host_auth.authorized == cfg.use_host_registry_auth,
        r.host_auth.config_path == cfg.host_registry_config,
        unreachable@ matches RuntimeErrorView::Other(t) && contains(t, l.config.socket@)
            && text@.is_suffix_of(t),
        silent@ matches RuntimeErrorView::Other(t) && contains(t, l.config.socket@)
            && text@.is_suffix_of(t),
{
    let a = unreachable@->Other_0;
    let b = silent@->Other_0;
    let s = l.config.socket@;
    let i = "failed to connect to containerd socket "@.len() as int;
    let j = "containerd at "@.len() as int;
    assert(a.subrange(i, i + s.len()) =~= s);
    assert(occurs_at(a, s, i));
    assert(b.subrange(j, j + s.len()) =~= s);
    assert(occurs_at(b, s, j));
    assert(a.subrange(a.len() - text@.len(), a.len() as int) =~= text@);
    assert(b.subrange(b.len() - text@.len(), b.len() as int) =~= text@);
}

} // verus!
