//! Deployments as the runtimes see them.
use vstd::prelude::*;
use crate::text::{opt_str, strs};

verus! {

/// How many restarts a deployment is given before it is left alone.
pub const MAX_RESTART_COUNT: u32 = 5;

/// Where a deployment stands.
#[derive(Clone, Copy, Debug, PartialEq, Eq, Structural)]
pub enum DeploymentStatus {
    Pending,
    Creating,
    Running,
    Completed,
    Failed,
    Deleted,
    CrashLoopBackOff,
    ImagePullBackOff,
    CreateContainerError,
    NetworkError,
    ConfigError,
    FileSystemError,
    InsufficientResources,
    Error,
}

/// What an inspected instance is doing.
#[derive(Clone, Copy, Debug, PartialEq, Eq, Structural)]
pub enum InstanceStatus {
    Running,
    Completed,
    Failed,
}

/// The value of an environment variable.
#[derive(Debug)]
pub enum EnvValue {
    Plain(String),
    /// A reference that has to be resolved before a runtime sees it.
    SecretRef { secret_ref: String },
}

/// An [`EnvValue`] by its contents.
pub enum EnvView {
    Plain(Seq<char>),
    SecretRef { secret_ref: Seq<char> },
}

impl View for EnvValue {
    type V = EnvView;

    open spec fn view(&self) -> EnvView {
        match *self {
            EnvValue::Plain(s) => EnvView::Plain(s@),
            EnvValue::SecretRef { secret_ref } => EnvView::SecretRef { secret_ref: secret_ref@ },
        }
    }
}

/// The user that a container runs as.
#[derive(Debug)]
pub struct UserConfig {
    pub id: Option<u32>,
    pub group: Option<u32>,
    pub privileged: Option<bool>,
}

/// Image and user settings of a deployment.
#[derive(Debug)]
pub struct DeploymentConfig {
    pub image_pull_policy: String,
    pub server: Option<String>,
    pub username: Option<String>,
    pub password: Option<String>,
    pub user: Option<UserConfig>,
}

/// One side of a resource declaration.
#[derive(Debug)]
pub struct ResourceSpec {
    pub cpu: Option<String>,
    pub memory: Option<String>,
}

/// Declared resources.
#[derive(Debug)]
pub struct Resource {
    pub limits: Option<ResourceSpec>,
    pub requests: Option<ResourceSpec>,
}

/// What to do when a health check keeps failing.
#[derive(Clone, Copy, Debug, PartialEq, Eq, Structural)]
pub enum FailureAction {
    Restart,
    Stop,
    Alert,
}

/// A probe that is run against an instance.
#[derive(Debug)]
pub enum HealthCheck {
    Tcp {
        port: u16,
        interval: String,
        timeout: String,
        threshold: u32,
        on_failure: FailureAction,
        readiness: bool,
        min_healthy_time: Option<String>,
    },
    Http {
        url: String,
        interval: String,
        timeout: String,
        threshold: u32,
        on_failure: FailureAction,
        readiness: bool,
        min_healthy_time: Option<String>,
    },
    Command {
        command: String,
        interval: String,
        timeout: String,
        threshold: u32,
        on_failure: FailureAction,
        readiness: bool,
        min_healthy_time: Option<String>,
    },
}

/// The result of a probe.
#[derive(Clone, Copy, Debug, PartialEq, Eq, Structural)]
pub enum HealthCheckStatus {
    Success,
    Failed,
    Timeout,
}

/// The transport of a published port.
#[derive(Clone, Copy, Debug, PartialEq, Eq, Structural)]
pub enum Protocol {
    Tcp,
    Udp,
}

/// A port of the workload that is published on the host.
#[derive(Debug)]
pub struct Port {
    pub published: u16,
    pub target: u16,
    pub host_ip: Option<String>,
    pub protocol: Protocol,
}

/// How a workload is attached to the network.
#[derive(Clone, Copy, Debug, PartialEq, Eq, Structural)]
pub enum NetworkMode {
    Bridge,
    Host,
}

/// Network settings of a deployment.
#[derive(Clone, Copy, Debug, PartialEq, Eq, Structural)]
pub struct DeploymentNetwork {
    pub mode: NetworkMode,
}

/// A volume whose source is known.
#[derive(Debug)]
pub enum ResolvedMount {
    /// A path of the host.
    Bind { source: String, destination: String, read_only: bool },
    /// A volume that the runtime keeps by name.
    Named { name: String, destination: String, read_only: bool, driver: String },
    /// A single rendered file.
    Content { content: String, destination: String },
}

/// Something that happened to a deployment.
#[derive(Debug)]
pub struct DeploymentEvent {
    pub level: String,
    pub message: String,
    pub component: String,
    pub reason: Option<String>,
}

/// A [`DeploymentEvent`] by its contents.
pub struct EventView {
    pub level: Seq<char>,
    pub message: Seq<char>,
    pub component: Seq<char>,
    pub reason: Option<Seq<char>>,
}

impl View for DeploymentEvent {
    type V = EventView;

    open spec fn view(&self) -> EventView {
        EventView {
            level: self.level@,
            message: self.message@,
            component: self.component@,
            reason: opt_str(self.reason),
        }
    }
}

/// The contents of a list of events.
pub open spec fn events(list: Seq<DeploymentEvent>) -> Seq<EventView> {
    list.map_values(|e: DeploymentEvent| e@)
}

/// An event with a reason.
pub open spec fn event(
    level: Seq<char>,
    message: Seq<char>,
    component: Seq<char>,
    reason: Seq<char>,
) -> EventView {
    EventView { level, message, component, reason: Some(reason) }
}

/// A workload and its state. The label and environment lists hold the entries
/// of a map: no name occurs in one of them twice.
#[derive(Debug)]
pub struct Deployment {
    pub id: String,
    pub created_at: String,
    pub updated_at: Option<String>,
    pub status: DeploymentStatus,
    pub restart_count: u32,
    pub namespace: String,
    pub name: String,
    pub image: String,
    pub config: Option<DeploymentConfig>,
    pub runtime: String,
    pub kind: String,
    pub replicas: u32,
    pub command: Vec<String>,
    pub instances: Vec<String>,
    pub labels: Vec<(String, String)>,
    pub environment: Vec<(String, EnvValue)>,
    pub volumes: String,
    pub health_checks: Vec<HealthCheck>,
    pub resources: Option<Resource>,
    pub image_digest: Option<String>,
    pub ports: Vec<Port>,
    pub pending_events: Vec<DeploymentEvent>,
    pub parent_id: Option<String>,
    pub network: Option<DeploymentNetwork>,
}

/// Whether no name occurs twice among the entries.
pub open spec fn distinct_names<V>(entries: Seq<(String, V)>) -> bool {
    forall|i: int, j: int|
        0 <= i < j < entries.len() ==> (#[trigger] entries[i]).0@ != (#[trigger] entries[j]).0@
}

impl Deployment {
    /// The names of the instances.
    pub open spec fn instance_ids(&self) -> Seq<Seq<char>> {
        strs(self.instances@)
    }

    /// The events that wait to be stored.
    pub open spec fn log(&self) -> Seq<EventView> {
        events(self.pending_events@)
    }

    /// Whether `self` and `other` agree on everything but the status, the
    /// restart count, the instances, the image digest and the waiting events.
    pub open spec fn same_declaration(&self, other: &Deployment) -> bool {
        *self == (Deployment {
            status: self.status,
            restart_count: self.restart_count,
            instances: self.instances,
            image_digest: self.image_digest,
            pending_events: self.pending_events,
            ..*other
        })
    }

    /// Append an event to those that wait to be stored.
    pub fn emit_event(&mut self, level: &str, message: String, component: &str, reason: &str)
        ensures
            final(self).log() == old(self).log().push(
                event(level@, message@, component@, reason@),
            ),
            *final(self) == (Deployment {
                pending_events: final(self).pending_events,
                ..*old(self)
            }),
    {
        let entry = DeploymentEvent {
            level: level.to_owned(),
            message,
            component: component.to_owned(),
            reason: Some(reason.to_owned()),
        };
        let ghost before = self.pending_events@;
        self.pending_events.push(entry);
        assert(events(self.pending_events@) =~= events(before).push(entry@));
    }
}

impl HealthCheck {
    /// Whether the check gates traffic.
    pub fn is_readiness(&self) -> (r: bool)
        ensures
            r == self.readiness(),
    {
        match self {
            HealthCheck::Tcp { readiness, .. } => *readiness,
            HealthCheck::Http { readiness, .. } => *readiness,
            HealthCheck::Command { readiness, .. } => *readiness,
        }
    }

    /// Whether the check gates traffic.
    pub open spec fn readiness(&self) -> bool {
        match *self {
            HealthCheck::Tcp { readiness, .. } => readiness,
            HealthCheck::Http { readiness, .. } => readiness,
            HealthCheck::Command { readiness, .. } => readiness,
        }
    }
}

impl Protocol {
    /// The name of the protocol.
    pub open spec fn name(&self) -> Seq<char> {
        match *self {
            Protocol::Tcp => "tcp"@,
            Protocol::Udp => "udp"@,
        }
    }

    /// The name of the protocol.
    pub fn as_str(&self) -> (r: &'static str)
        ensures
            r@ == self.name(),
    {
        match self {
            Protocol::Tcp => "tcp",
            Protocol::Udp => "udp",
        }
    }
}

/// An event that is told of is the last, with what was said of it; the others stay,
/// and so does everything else.
pub proof fn law_event_is_appended(
    d: &mut Deployment,
    level: &str,
    message: String,
    component: &str,
    reason: &str,
    r: (),
)
    requires
        call_ensures(Deployment::emit_event, (d, level, message, component, reason), r),
    ensures
        final(d).pending_events@.len() == old(d).pending_events@.len() + 1,
        final(d).log().drop_last() == old(d).log(),
        final(d).log().last().level == level@,
        final(d).log().last().message == message@,
        final(d).log().last().component == component@,
        final(d).log().last().reason == Some(reason@),
        final(d).status == old(d).status,
        final(d).instances == old(d).instances,
        final(d).restart_count == old(d).restart_count,
{
    assert(final(d).log().drop_last() =~= old(d).log());
    assert(final(d).log().len() == final(d).pending_events@.len());
    assert(old(d).log().len() == old(d).pending_events@.len());
}

/// A check gates traffic exactly where it says so, whatever it looks at.
pub proof fn law_readiness_is_what_is_declared(check: &HealthCheck, r: bool)
    requires
        call_ensures(HealthCheck::is_readiness, (check,), r),
    ensures
        *check matches HealthCheck::Tcp { readiness, .. } ==> r == readiness,
        *check matches HealthCheck::Http { readiness, .. } ==> r == readiness,
        *check matches HealthCheck::Command { readiness, .. } ==> r == readiness,
{
}

} // verus!
