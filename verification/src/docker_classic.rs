//! A reconciler of containers that keeps the state of a workload as text and
//! moves by one container per round.
use vstd::prelude::*;
use crate::docker::names_missing_image;
use crate::docker::container::{ContainerMount, MountKind, MountView, build_user_config, get_privileged_config, privileged, user_text};
use crate::docker::exec::OWNER_LABEL;
use crate::docker::instances::{find_label, label_value};
use crate::entries::{copy_strings, entry_map, instance_labels, label_map, law_own_labels_win};
use crate::foreign::{json_texts, parse_texts};
use crate::models::{DeploymentConfig, DeploymentEvent, EventView, HealthCheckStatus, InstanceStatus, distinct_names, event, events};
use crate::steps::{Run, advanced, fresh, lemma_run_ends, lemma_run_keeps, run_on};
use crate::text::{begins, cat2, cat3, cat4, cat5, cat7, chars_of, contains, decimal, decimal_u64, find_from, first_pos, has, lemma_first_pos, matches_at, occurs_at, opt_str, same, string_of, strs};

verus! {

/// How many containers are started before a worker is given up.
pub const CLASSIC_RESTART_LIMIT: u32 = 5;

/// What can go wrong while a container is created.
#[derive(Debug, PartialEq, Eq)]
pub enum ClassicError {
    ImageNotFound(String),
    ImagePullFailed(String),
    InstanceCreationFailed(String),
    NetworkCreationFailed(String),
    ConfigNotFound(String),
    ConfigKeyNotFound(String),
    FileSystemError(String),
    ConnectionFailed(String),
    Other(String),
}

/// A [`ClassicError`] by its contents.
pub enum ClassicErrorView {
    ImageNotFound(Seq<char>),
    ImagePullFailed(Seq<char>),
    InstanceCreationFailed(Seq<char>),
    NetworkCreationFailed(Seq<char>),
    ConfigNotFound(Seq<char>),
    ConfigKeyNotFound(Seq<char>),
    FileSystemError(Seq<char>),
    ConnectionFailed(Seq<char>),
    Other(Seq<char>),
}

impl View for ClassicError {
    type V = ClassicErrorView;

    open spec fn view(&self) -> ClassicErrorView {
        match *self {
            ClassicError::ImageNotFound(s) => ClassicErrorView::ImageNotFound(s@),
            ClassicError::ImagePullFailed(s) => ClassicErrorView::ImagePullFailed(s@),
            ClassicError::InstanceCreationFailed(s) => ClassicErrorView::InstanceCreationFailed(s@),
            ClassicError::NetworkCreationFailed(s) => ClassicErrorView::NetworkCreationFailed(s@),
            ClassicError::ConfigNotFound(s) => ClassicErrorView::ConfigNotFound(s@),
            ClassicError::ConfigKeyNotFound(s) => ClassicErrorView::ConfigKeyNotFound(s@),
            ClassicError::FileSystemError(s) => ClassicErrorView::FileSystemError(s@),
            ClassicError::ConnectionFailed(s) => ClassicErrorView::ConnectionFailed(s@),
            ClassicError::Other(s) => ClassicErrorView::Other(s@),
        }
    }
}

/// A workload whose status is a text.
#[derive(Debug)]
pub struct ClassicDeployment {
    pub id: String,
    pub status: String,
    pub restart_count: u32,
    pub namespace: String,
    pub name: String,
    pub image: String,
    pub config: Option<DeploymentConfig>,
    pub kind: String,
    pub replicas: u32,
    pub command: Vec<String>,
    pub instances: Vec<String>,
    pub labels: Vec<(String, String)>,
    pub secrets: Vec<(String, String)>,
    pub volumes: String,
    pub pending_events: Vec<DeploymentEvent>,
}

impl ClassicDeployment {
    /// The events that wait to be stored.
    pub open spec fn log(&self) -> Seq<EventView> {
        events(self.pending_events@)
    }

    /// Append an event to those that wait to be stored.
    pub fn emit_event(&mut self, level: &str, message: String, component: &str, reason: &str)
        ensures
            final(self).log() == old(self).log().push(
                event(level@, message@, component@, reason@),
            ),
            *final(self) == (ClassicDeployment {
                pending_events: final(self).pending_events,
                ..*old(self)
            }),
    {
        let entry = DeploymentEvent {
            level: level.to_owned(),
            message,
            component: component.to_owned(),
            reason: Some(reason.to_owned()),
        };
        let ghost before = self.pending_events@;
        self.pending_events.push(entry);
        assert(events(self.pending_events@) =~= events(before).push(entry@));
    }
}

/// The error that a daemon's text stands for.
pub fn classic_daemon_error(text: String) -> (r: ClassicError)
    ensures
        r@ == if names_missing_image(text@) {
            ClassicErrorView::ImageNotFound(text@)
        } else {
            ClassicErrorView::Other(text@)
        },
{
    if has(text.as_str(), "404") || has(text.as_str(), "not found") || has(
        text.as_str(),
        "manifest unknown",
    ) {
        ClassicError::ImageNotFound(text)
    } else {
        ClassicError::Other(text)
    }
}

// ---------------------------------------------------------------------------
// Images
// ---------------------------------------------------------------------------

/// The name and the tag of an image: what stands before and after the first
/// colon, and `latest` where there is none.
pub open spec fn name_and_tag(image: Seq<char>) -> (Seq<char>, Seq<char>) {
    let at = first_pos(image, ':');
    if at < image.len() {
        (image.take(at), image.skip(at + 1))
    } else {
        (image, "latest"@)
    }
}

/// The name and the tag of an image.
pub fn split_image(image: &str) -> (r: (String, String))
    ensures
        (r.0@, r.1@) == name_and_tag(image@),
{
    let text = chars_of(image);
    assert(image@.skip(0) =~= image@);
    let at: usize = find_from(&text, ':', 0);
    if at < text.len() {
        let name = string_of(&text, 0, at);
        let tag = string_of(&text, at + 1, text.len());
        assert(name@ =~= image@.take(at as int));
        assert(tag@ =~= image@.skip(at + 1));
        (name, tag)
    } else {
        (image.to_owned(), "latest".to_owned())
    }
}

/// Whether an image is pulled before a container is created from it.
pub open spec fn pulls(config: Option<DeploymentConfig>) -> bool {
    match config {
        Some(c) => c.image_pull_policy@ != "Never"@,
        None => true,
    }
}

/// Whether an image is pulled before a container is created from it.
pub fn should_pull(config: &Option<DeploymentConfig>) -> (r: bool)
    ensures
        r == pulls(*config),
{
    match config {
        Some(c) => !same(c.image_pull_policy.as_str(), "Never"),
        None => true,
    }
}

/// The error that the replies of a pull amount to: an image that does not exist
/// ends the pull at once, and of other errors the last one counts.
pub open spec fn pull_failure(
    replies: Seq<Option<String>>,
    last: Option<Seq<char>>,
) -> Option<ClassicErrorView>
    decreases replies.len(),
{
    if replies.len() == 0 {
        match last {
            Some(text) => Some(ClassicErrorView::ImagePullFailed(text)),
            None => None,
        }
    } else {
        match replies[0] {
            Some(text) => if names_missing_image(text@) {
                Some(ClassicErrorView::ImageNotFound(text@))
            } else {
                pull_failure(replies.skip(1), Some(text@))
            },
            None => pull_failure(replies.skip(1), last),
        }
    }
}

/// Judge the replies of a pull; each is the text of an error, or nothing.
pub fn pull_result(replies: &Vec<Option<String>>) -> (r: Result<(), ClassicError>)
    ensures
        match pull_failure(replies@, None) {
            Some(error) => r matches Err(e) && e@ == error,
            None => r is Ok,
        },
{
    let mut last: Option<String> = None;
    let mut i: usize = 0;
    assert(replies@.skip(0) =~= replies@);
    while i < replies.len()
        invariant
            i <= replies.len(),
            pull_failure(replies@, None) == pull_failure(replies@.skip(i as int), opt_str(last)),
        decreases replies.len() - i,
    {
        assert(replies@.skip(i as int)[0] == replies@[i as int]);
        assert(replies@.skip(i as int).skip(1) =~= replies@.skip(i + 1));
        if let Some(text) = &replies[i] {
            if has(text.as_str(), "404") || has(text.as_str(), "not found") || has(
                text.as_str(),
                "manifest unknown",
            ) {
                return Err(ClassicError::ImageNotFound(text.clone()));
            }
            last = Some(text.clone());
        }
        i += 1;
    }
    match last {
        Some(text) => Err(ClassicError::ImagePullFailed(text)),
        None => Ok(()),
    }
}

/// The error for an image that is not there after a pull that did not fail.
pub fn image_still_missing(image_name: &str) -> (r: ClassicError)
    ensures
        r@ == ClassicErrorView::ImageNotFound(
            "Image "@ + image_name@ + " not available after pull"@,
        ),
{
    ClassicError::ImageNotFound(cat3("Image ", image_name, " not available after pull"))
}

// ---------------------------------------------------------------------------
// Mounts
// ---------------------------------------------------------------------------

/// A volume of a workload.
#[derive(Debug)]
pub struct DeploymentVolume {
    pub kind: String,
    pub source: Option<String>,
    pub destination: String,
    pub driver: String,
    pub permission: String,
    pub key: Option<String>,
}

/// A configuration: its name and the named texts that it holds; where its JSON
/// text cannot be read, why.
#[derive(Debug)]
pub struct ConfigData {
    pub name: String,
    pub entries: Result<Vec<(String, String)>, String>,
}

/// Whether a configuration holds what its JSON text says.
pub open spec fn holds_text(config: ConfigData, data: Seq<char>) -> bool {
    match json_texts(data) {
        Ok(entries) => config.entries matches Ok(list) && distinct_names(list@) && entry_map(list@)
            == entries,
        Err(error) => config.entries matches Err(text) && text@ == error,
    }
}

/// Read a configuration from its JSON text.
pub fn read_config(name: &str, data: &str) -> (r: ConfigData)
    ensures
        r.name@ == name@,
        holds_text(r, data@),
{
    ConfigData { name: name.to_owned(), entries: parse_texts(data) }
}

/// The first configuration with this name.
pub open spec fn config_named(configs: Seq<ConfigData>, name: Seq<char>) -> Option<ConfigData>
    decreases configs.len(),
{
    if configs.len() == 0 {
        None
    } else if configs[0].name@ == name {
        Some(configs[0])
    } else {
        config_named(configs.skip(1), name)
    }
}

/// The first configuration with this name.
fn find_config<'a>(configs: &'a Vec<ConfigData>, name: &str) -> (r: Option<&'a ConfigData>)
    ensures
        match r {
            Some(c) => config_named(configs@, name@) == Some(*c),
            None => config_named(configs@, name@) is None,
        },
{
    let mut i: usize = 0;
    assert(configs@.skip(0) =~= configs@);
    while i < configs.len()
        invariant
            i <= configs.len(),
            config_named(configs@, name@) == config_named(configs@.skip(i as int), name@),
        decreases configs.len() - i,
    {
        assert(configs@.skip(i as int)[0] == configs@[i as int]);
        assert(configs@.skip(i as int).skip(1) =~= configs@.skip(i + 1));
        if same(configs[i].name.as_str(), name) {
            return Some(&configs[i]);
        }
        i += 1;
    }
    None
}

/// What a configuration volume becomes: the content of a file, or an error.
pub open spec fn config_content(
    volume: DeploymentVolume,
    configs: Seq<ConfigData>,
) -> Result<Seq<char>, ClassicErrorView> {
    match volume.source {
        None => Err(ClassicErrorView::InstanceCreationFailed("Config volume requires a source"@)),
        Some(source) => match config_named(configs, source@) {
            None => Err(ClassicErrorView::ConfigNotFound("Config '"@ + source@ + "' not found"@)),
            Some(config) => match config.entries {
                Err(text) => Err(ClassicErrorView::Other(text@)),
                Ok(entries) => match volume.key {
                    None => Err(
                        ClassicErrorView::ConfigKeyNotFound("Missing 'key' field for config volume"@),
                    ),
                    Some(key) => match label_value(entries@, key@) {
                        None => Err(
                            ClassicErrorView::ConfigKeyNotFound(
                                "Key '"@ + key@ + "' not found in config '"@ + source@ + "'"@,
                            ),
                        ),
                        Some(content) => Ok(content),
                    },
                },
            },
        },
    }
}

/// The content of the file that a configuration volume stands for.
fn resolve_config(volume: &DeploymentVolume, configs: &Vec<ConfigData>) -> (r: Result<
    String,
    ClassicError,
>)
    ensures
        match config_content(*volume, configs@) {
            Ok(content) => r matches Ok(found) && found@ == content,
            Err(error) => r matches Err(e) && e@ == error,
        },
{
    let source = match &volume.source {
        Some(s) => s,
        None => return Err(
            ClassicError::InstanceCreationFailed("Config volume requires a source".to_owned()),
        ),
    };
    let config = match find_config(configs, source.as_str()) {
        Some(c) => c,
        None => return Err(
            ClassicError::ConfigNotFound(cat3("Config '", source.as_str(), "' not found")),
        ),
    };
    let entries = match &config.entries {
        Ok(list) => list,
        Err(text) => return Err(ClassicError::Other(text.clone())),
    };
    let key = match &volume.key {
        Some(k) => k,
        None => return Err(
            ClassicError::ConfigKeyNotFound("Missing 'key' field for config volume".to_owned()),
        ),
    };
    match find_label(entries, key.as_str()) {
        Some(content) => Ok(content),
        None => Err(
            ClassicError::ConfigKeyNotFound(
                cat5("Key '", key.as_str(), "' not found in config '", source.as_str(), "'"),
            ),
        ),
    }
}

/// The directory that holds the rendered files of a workload.
pub open spec fn config_dir_text(deployment_id: Seq<char>) -> Seq<char> {
    "/tmp/ring_configs/"@ + deployment_id
}

/// The directory that holds the rendered files of a workload.
pub fn config_dir(deployment_id: &str) -> (r: String)
    ensures
        r@ == config_dir_text(deployment_id@),
{
    cat2("/tmp/ring_configs/", deployment_id)
}

/// A mount, and what the file behind it has to hold where it is rendered.
#[derive(Debug)]
pub struct PlannedMount {
    pub mount: ContainerMount,
    pub content: Option<String>,
}

/// What a volume becomes: a mount and the content that is to be written to its
/// source, or an error. `suffix` names the file.
pub open spec fn planned_mount(
    volume: DeploymentVolume,
    configs: Seq<ConfigData>,
    deployment_id: Seq<char>,
    suffix: Seq<char>,
) -> Result<(MountView, Option<Seq<char>>), ClassicErrorView> {
    let read_only = volume.permission@ == "ro"@;
    let target = volume.destination@;
    if volume.kind@ == "bind"@ {
        match volume.source {
            Some(source) => Ok(
                (
                    MountView {
                        target,
                        source: source@,
                        kind: if "/"@.is_prefix_of(source@) {
                            MountKind::Bind
                        } else {
                            MountKind::Volume
                        },
                        read_only,
                        driver: None,
                    },
                    None,
                ),
            ),
            None => Err(ClassicErrorView::InstanceCreationFailed("Bind volume requires a source"@)),
        }
    } else if volume.kind@ == "volume"@ {
        match volume.source {
            Some(source) => Ok(
                (
                    MountView {
                        target,
                        source: source@,
                        kind: MountKind::Volume,
                        read_only,
                        driver: None,
                    },
                    None,
                ),
            ),
            None => Err(
                ClassicErrorView::InstanceCreationFailed("Named volume requires a source"@),
            ),
        }
    } else {
        match config_content(volume, configs) {
            Ok(content) => Ok(
                (
                    MountView {
                        target,
                        source: config_dir_text(deployment_id) + "/"@ + suffix,
                        kind: MountKind::Bind,
                        read_only,
                        driver: None,
                    },
                    Some(content),
                ),
            ),
            Err(error) => Err(error),
        }
    }
}

/// What a volume becomes. A volume that is neither a bind nor a named one is a
/// configuration.
pub fn create_mount_from_volume(
    volume: &DeploymentVolume,
    configs: &Vec<ConfigData>,
    deployment_id: &str,
    suffix: &str,
) -> (r: Result<PlannedMount, ClassicError>)
    ensures
        match planned_mount(*volume, configs@, deployment_id@, suffix@) {
            Ok(plan) => r matches Ok(p) && p.mount@ == plan.0 && opt_str(p.content) == plan.1,
            Err(error) => r matches Err(e) && e@ == error,
        },
{
    let read_only = same(volume.permission.as_str(), "ro");
    if same(volume.kind.as_str(), "bind") {
        let source = match &volume.source {
            Some(s) => s,
            None => return Err(
                ClassicError::InstanceCreationFailed("Bind volume requires a source".to_owned()),
            ),
        };
        let kind = if begins(source.as_str(), "/") {
            MountKind::Bind
        } else {
            MountKind::Volume
        };
        let mount = ContainerMount {
            target: volume.destination.clone(),
            source: source.clone(),
            kind,
            read_only,
            driver: None,
        };
        return Ok(PlannedMount { mount, content: None });
    }
    if same(volume.kind.as_str(), "volume") {
        let source = match &volume.source {
            Some(s) => s,
            None => return Err(
                ClassicError::InstanceCreationFailed("Named volume requires a source".to_owned()),
            ),
        };
        let mount = ContainerMount {
            target: volume.destination.clone(),
            source: source.clone(),
            kind: MountKind::Volume,
            read_only,
            driver: None,
        };
        return Ok(PlannedMount { mount, content: None });
    }
    match resolve_config(volume, configs) {
        Ok(content) => {
            let dir = config_dir(deployment_id);
            let mount = ContainerMount {
                target: volume.destination.clone(),
                source: cat3(dir.as_str(), "/", suffix),
                kind: MountKind::Bind,
                read_only,
                driver: None,
            };
            Ok(PlannedMount { mount, content: Some(content) })
        },
        Err(e) => Err(e),
    }
}

// ---------------------------------------------------------------------------
// Creation
// ---------------------------------------------------------------------------

/// `NAME=value` for every secret.
pub open spec fn secret_lines(secrets: Seq<(String, String)>) -> Seq<Seq<char>> {
    secrets.map_values(|s: (String, String)| s.0@ + "="@ + s.1@)
}

/// `NAME=value` for every secret.
pub fn secret_env(secrets: &Vec<(String, String)>) -> (r: Vec<String>)
    ensures
        strs(r@) == secret_lines(secrets@),
{
    let mut out: Vec<String> = Vec::new();
    let mut i: usize = 0;
    assert(strs(out@) =~= secret_lines(secrets@.take(0)));
    while i < secrets.len()
        invariant
            i <= secrets.len(),
            strs(out@) == secret_lines(secrets@.take(i as int)),
        decreases secrets.len() - i,
    {
        let ghost before = out@;
        let line = cat3(secrets[i].0.as_str(), "=", secrets[i].1.as_str());
        out.push(line);
        assert(strs(out@) =~= strs(before).push(line@));
        assert(secret_lines(secrets@.take(i + 1)) =~= secret_lines(secrets@.take(i as int)).push(
            line@,
        ));
        i += 1;
    }
    assert(secrets@.take(secrets.len() as int) =~= secrets@);
    out
}

/// What a container is created with.
#[derive(Debug)]
pub struct ClassicBody {
    pub image: String,
    pub cmd: Vec<String>,
    pub env: Vec<String>,
    pub labels: Vec<(String, String)>,
    pub mounts: Vec<ContainerMount>,
    pub privileged: Option<bool>,
    pub user: Option<String>,
}

/// What a container is created with.
pub fn classic_body(deployment: &ClassicDeployment, mounts: Vec<ContainerMount>) -> (r: ClassicBody)
    ensures
        r.image@ == deployment.image@,
        r.cmd@ == deployment.command@,
        strs(r.env@) == secret_lines(deployment.secrets@),
        entry_map(r.labels@) == label_map(
            "ring_deployment"@,
            deployment.id@,
            deployment.labels@,
        ),
        distinct_names(r.labels@),
        r.mounts@ == mounts@,
        r.privileged == privileged(deployment.config),
        opt_str(r.user) == user_text(deployment.config),
{
    ClassicBody {
        image: deployment.image.clone(),
        cmd: copy_strings(&deployment.command),
        env: secret_env(&deployment.secrets),
        labels: instance_labels(
            OWNER_LABEL,
            deployment.id.as_str(),
            &deployment.labels,
        ),
        mounts,
        privileged: get_privileged_config(&deployment.config),
        user: build_user_config(&deployment.config),
    }
}

/// The error for volumes that cannot be read.
pub fn volumes_error(text: &str) -> (r: ClassicError)
    ensures
        r@ == ClassicErrorView::InstanceCreationFailed("Failed to parse volumes: "@ + text@),
{
    ClassicError::InstanceCreationFailed(cat2("Failed to parse volumes: ", text))
}

/// The error for a network that could not be created.
pub fn classic_network_error(network_name: &str, text: &str) -> (r: ClassicError)
    ensures
        r@ == ClassicErrorView::NetworkCreationFailed(
            "Failed to create network "@ + network_name@ + ": "@ + text@,
        ),
{
    ClassicError::NetworkCreationFailed(cat4("Failed to create network ", network_name, ": ", text))
}

/// The error for a container that could not be connected to its network.
pub fn classic_connect_error(text: &str) -> (r: ClassicError)
    ensures
        r@ == ClassicErrorView::InstanceCreationFailed(
            "Docker failed to connect to network: "@ + text@,
        ),
{
    ClassicError::InstanceCreationFailed(cat2("Docker failed to connect to network: ", text))
}

/// The error for a container that could not be started.
pub fn classic_start_error(text: &str) -> (r: ClassicError)
    ensures
        r@ == ClassicErrorView::InstanceCreationFailed(
            "Docker failed to start container: "@ + text@,
        ),
{
    ClassicError::InstanceCreationFailed(cat2("Docker failed to start container: ", text))
}

/// The name of a container, given its random suffix.
pub fn classic_name(deployment: &ClassicDeployment, suffix: &str) -> (r: String)
    ensures
        r@ == deployment.namespace@ + "_"@ + deployment.name@ + "_"@ + suffix@,
{
    cat5(deployment.namespace.as_str(), "_", deployment.name.as_str(), "_", suffix)
}

/// The names that a container is known by in its network.
pub fn classic_aliases(deployment: &ClassicDeployment, container_name: &str) -> (r: Vec<String>)
    ensures
        strs(r@) == seq![deployment.name@, container_name@],
{
    let mut out: Vec<String> = Vec::new();
    out.push(deployment.name.clone());
    out.push(container_name.to_owned());
    assert(strs(out@) =~= seq![deployment.name@, container_name@]);
    out
}

/// A step of the creation of a container.
#[derive(Clone, Copy, Debug, PartialEq, Eq, Structural)]
pub enum ClassicStep {
    /// See whether the image is there; a failure means that it is not.
    LookForImage,
    Pull,
    /// See that the pulled image is there.
    LookAgain,
    /// See whether the network is there; a failure means that it is not.
    LookForNetwork,
    CreateNetwork,
    Mounts,
    Create,
    Connect,
    Start,
    Done,
    Failed,
}

/// The first step of the creation of a container.
pub open spec fn classic_first(config: Option<DeploymentConfig>) -> ClassicStep {
    if pulls(config) {
        ClassicStep::LookForImage
    } else {
        ClassicStep::LookForNetwork
    }
}

/// The first step of the creation of a container.
pub fn first_classic_step(config: &Option<DeploymentConfig>) -> (r: ClassicStep)
    ensures
        r == classic_first(*config),
{
    if should_pull(config) {
        ClassicStep::LookForImage
    } else {
        ClassicStep::LookForNetwork
    }
}

/// The step after a step.
pub open spec fn classic_next(step: ClassicStep, ok: bool) -> ClassicStep {
    match (step, ok) {
        (ClassicStep::LookForImage, true) => ClassicStep::LookForNetwork,
        (ClassicStep::LookForImage, false) => ClassicStep::Pull,
        (ClassicStep::Pull, true) => ClassicStep::LookAgain,
        (ClassicStep::LookAgain, true) => ClassicStep::LookForNetwork,
        (ClassicStep::LookForNetwork, true) => ClassicStep::Mounts,
        (ClassicStep::LookForNetwork, false) => ClassicStep::CreateNetwork,
        (ClassicStep::CreateNetwork, true) => ClassicStep::Mounts,
        (ClassicStep::Mounts, true) => ClassicStep::Create,
        (ClassicStep::Create, true) => ClassicStep::Connect,
        (ClassicStep::Connect, true) => ClassicStep::Start,
        (ClassicStep::Start, true) => ClassicStep::Done,
        (ClassicStep::Done, _) => ClassicStep::Done,
        _ => ClassicStep::Failed,
    }
}

/// The step after a step. A container that was created stays where a later step
/// fails.
pub fn next_classic_step(step: ClassicStep, ok: bool) -> (r: ClassicStep)
    ensures
        r == classic_next(step, ok),
{
    match (step, ok) {
        (ClassicStep::LookForImage, true) => ClassicStep::LookForNetwork,
        (ClassicStep::LookForImage, false) => ClassicStep::Pull,
        (ClassicStep::Pull, true) => ClassicStep::LookAgain,
        (ClassicStep::LookAgain, true) => ClassicStep::LookForNetwork,
        (ClassicStep::LookForNetwork, true) => ClassicStep::Mounts,
        (ClassicStep::LookForNetwork, false) => ClassicStep::CreateNetwork,
        (ClassicStep::CreateNetwork, true) => ClassicStep::Mounts,
        (ClassicStep::Mounts, true) => ClassicStep::Create,
        (ClassicStep::Create, true) => ClassicStep::Connect,
        (ClassicStep::Connect, true) => ClassicStep::Start,
        (ClassicStep::Start, true) => ClassicStep::Done,
        (ClassicStep::Done, _) => ClassicStep::Done,
        _ => ClassicStep::Failed,
    }
}

/// Record a container that was created.
pub fn record_classic(deployment: &mut ClassicDeployment, container_id: &str)
    ensures
        strs(final(deployment).instances@) == strs(old(deployment).instances@).push(container_id@),
        *final(deployment) == (ClassicDeployment {
            instances: final(deployment).instances,
            ..*old(deployment)
        }),
{
    let ghost before = deployment.instances@;
    deployment.instances.push(container_id.to_owned());
    assert(strs(deployment.instances@) =~= strs(before).push(container_id@));
}

// ---------------------------------------------------------------------------
// Workers and jobs
// ---------------------------------------------------------------------------

/// The status, the message and the reason that a failed creation leads to.
pub open spec fn classic_report(d: ClassicDeployment, e: ClassicErrorView) -> (
    Seq<char>,
    Seq<char>,
    Seq<char>,
) {
    match e {
        ClassicErrorView::ImageNotFound(msg) => (
            "ImagePullBackOff"@,
            "Image '"@ + d.image@ + "' not found"@,
            "ImagePullBackOff"@,
        ),
        ClassicErrorView::ImagePullFailed(msg) => (
            "ImagePullBackOff"@,
            "Failed to pull image '"@ + d.image@ + "'"@,
            "ImagePullBackOff"@,
        ),
        ClassicErrorView::InstanceCreationFailed(msg) => (
            "CreateContainerError"@,
            "Container creation failed: "@ + msg,
            "InstanceCreationFailed"@,
        ),
        ClassicErrorView::NetworkCreationFailed(msg) => (
            "NetworkError"@,
            "Failed to create network for namespace '"@ + d.namespace@ + "'"@,
            "NetworkCreationFailed"@,
        ),
        ClassicErrorView::ConfigNotFound(msg) => (
            "ConfigError"@,
            "Config not found in namespace '"@ + d.namespace@ + "'"@,
            "ConfigError"@,
        ),
        ClassicErrorView::ConfigKeyNotFound(msg) => (
            "ConfigError"@,
            "Config key not found in namespace '"@ + d.namespace@ + "'"@,
            "ConfigError"@,
        ),
        ClassicErrorView::FileSystemError(msg) => (
            "FileSystemError"@,
            "Failed to access file system for config mount"@,
            "FileSystemError"@,
        ),
        ClassicErrorView::ConnectionFailed(msg) => (
            "Error"@,
            "Connection failed: "@ + msg,
            "ConnectionFailed"@,
        ),
        ClassicErrorView::Other(msg) => ("Error"@, "Docker error: "@ + msg, "RuntimeError"@),
    }
}

/// Record a failed creation: the status that names the kind of failure, one
/// event and, for a worker, one restart.
pub fn classic_create_failed(deployment: &mut ClassicDeployment, err: &ClassicError, worker: bool)
    requires
        worker ==> old(deployment).restart_count < u32::MAX,
    ensures
        final(deployment).status@ == classic_report(*old(deployment), err@).0,
        final(deployment).restart_count == old(deployment).restart_count + if worker {
            1int
        } else {
            0int
        },
        final(deployment).log() == old(deployment).log().push(
            event(
                "error"@,
                classic_report(*old(deployment), err@).1,
                "docker"@,
                classic_report(*old(deployment), err@).2,
            ),
        ),
        *final(deployment) == (ClassicDeployment {
            status: final(deployment).status,
            restart_count: final(deployment).restart_count,
            pending_events: final(deployment).pending_events,
            ..*old(deployment)
        }),
{
    let (status, message, reason): (&str, String, &str) = match err {
        ClassicError::ImageNotFound(_) => (
            "ImagePullBackOff",
            cat3("Image '", deployment.image.as_str(), "' not found"),
            "ImagePullBackOff",
        ),
        ClassicError::ImagePullFailed(_) => (
            "ImagePullBackOff",
            cat3("Failed to pull image '", deployment.image.as_str(), "'"),
            "ImagePullBackOff",
        ),
        ClassicError::InstanceCreationFailed(msg) => (
            "CreateContainerError",
            cat2("Container creation failed: ", msg.as_str()),
            "InstanceCreationFailed",
        ),
        ClassicError::NetworkCreationFailed(_) => (
            "NetworkError",
            cat3(
                "Failed to create network for namespace '",
                deployment.namespace.as_str(),
                "'",
            ),
            "NetworkCreationFailed",
        ),
        ClassicError::ConfigNotFound(_) => (
            "ConfigError",
            cat3("Config not found in namespace '", deployment.namespace.as_str(), "'"),
            "ConfigError",
        ),
        ClassicError::ConfigKeyNotFound(_) => (
            "ConfigError",
            cat3("Config key not found in namespace '", deployment.namespace.as_str(), "'"),
            "ConfigError",
        ),
        ClassicError::FileSystemError(_) => (
            "FileSystemError",
            "Failed to access file system for config mount".to_owned(),
            "FileSystemError",
        ),
        ClassicError::ConnectionFailed(msg) => (
            "Error",
            cat2("Connection failed: ", msg.as_str()),
            "ConnectionFailed",
        ),
        ClassicError::Other(msg) => ("Error", cat2("Docker error: ", msg.as_str()), "RuntimeError"),
    };
    deployment.status = status.to_owned();
    if worker {
        deployment.restart_count = deployment.restart_count + 1;
    }
    deployment.emit_event("error", message, "docker", reason);
}

/// The event for the containers of a workload that were removed.
pub open spec fn deletion_event(count: nat, kind: Seq<char>) -> EventView {
    event(
        "info"@,
        "Deleted "@ + decimal(count) + " container(s) for "@ + kind + " marked as deleted"@,
        "docker"@,
        "ContainerDeletion"@,
    )
}

/// Record that the containers of a workload were removed. Where there was none,
/// nothing is recorded.
pub fn classic_removed(deployment: &mut ClassicDeployment, kind: &str)
    ensures
        final(deployment).log() == if old(deployment).instances.len() > 0 {
            old(deployment).log().push(
                deletion_event(old(deployment).instances@.len(), kind@),
            )
        } else {
            old(deployment).log()
        },
        *final(deployment) == (ClassicDeployment {
            pending_events: final(deployment).pending_events,
            ..*old(deployment)
        }),
{
    let count: usize = deployment.instances.len();
    if count > 0 {
        let shown = decimal_u64(count as u64);
        let message = cat5(
            "Deleted ",
            shown.as_str(),
            " container(s) for ",
            kind,
            " marked as deleted",
        );
        deployment.emit_event("info", message, "docker", "ContainerDeletion");
    }
}

/// What a round does.
#[derive(Clone, Copy, Debug, PartialEq, Eq, Structural)]
pub enum ClassicAction {
    /// Nothing more.
    Stop,
    /// Remove all containers, then record it.
    RemoveAll,
    /// Create a container.
    Create,
    /// Remove the first container, then record it.
    RemoveFirst,
    /// Look at the first of the job's containers.
    Inspect,
}

/// The status of a worker when its round has begun.
pub open spec fn classic_worker_status(d: ClassicDeployment) -> Seq<char> {
    if d.restart_count >= CLASSIC_RESTART_LIMIT && d.status@ != "deleted"@ {
        "CrashLoopBackOff"@
    } else {
        d.status@
    }
}

/// What a worker's round does.
pub open spec fn classic_worker_action(d: ClassicDeployment) -> ClassicAction {
    if d.restart_count >= CLASSIC_RESTART_LIMIT && d.status@ != "deleted"@ {
        ClassicAction::Stop
    } else if d.status@ == "CrashLoopBackOff"@ {
        ClassicAction::Stop
    } else if d.status@ == "deleted"@ {
        ClassicAction::RemoveAll
    } else if d.instances.len() < d.replicas {
        ClassicAction::Create
    } else if d.instances.len() > d.replicas {
        ClassicAction::RemoveFirst
    } else {
        ClassicAction::Stop
    }
}

/// Whether a workload runs to completion instead of staying up.
pub fn classic_is_job(deployment: &ClassicDeployment) -> (r: bool)
    ensures
        r == (deployment.kind@ == "job"@),
{
    same(deployment.kind.as_str(), "job")
}

/// Record that the daemon could not be reached.
pub fn classic_unreachable(deployment: &mut ClassicDeployment)
    ensures
        final(deployment).status@ == "Error"@,
        *final(deployment) == (ClassicDeployment {
            status: final(deployment).status,
            ..*old(deployment)
        }),
{
    deployment.status = "Error".to_owned();
}

/// Begin a worker's round: a worker that was started too often is given up, and
/// one that was given up stays so until it is deleted.
pub fn classic_worker_begin(deployment: &mut ClassicDeployment) -> (r: ClassicAction)
    ensures
        r == classic_worker_action(*old(deployment)),
        final(deployment).status@ == classic_worker_status(*old(deployment)),
        *final(deployment) == (ClassicDeployment {
            status: final(deployment).status,
            ..*old(deployment)
        }),
{
    let deleted = same(deployment.status.as_str(), "deleted");
    if deployment.restart_count >= CLASSIC_RESTART_LIMIT && !deleted {
        deployment.status = "CrashLoopBackOff".to_owned();
        return ClassicAction::Stop;
    }
    if same(deployment.status.as_str(), "CrashLoopBackOff") {
        return ClassicAction::Stop;
    }
    if deleted {
        return ClassicAction::RemoveAll;
    }
    let current: u64 = deployment.instances.len() as u64;
    let target: u64 = deployment.replicas as u64;
    if current < target {
        ClassicAction::Create
    } else if current > target {
        ClassicAction::RemoveFirst
    } else {
        ClassicAction::Stop
    }
}

/// Record that a worker has a new container. `current` is how many it had.
pub fn classic_worker_created(deployment: &mut ClassicDeployment, current: usize)
    requires
        old(deployment).restart_count < u32::MAX,
        current < usize::MAX,
    ensures
        final(deployment).restart_count == old(deployment).restart_count + 1,
        final(deployment).status@ == if old(deployment).status@ == "pending"@ || old(
            deployment,
        ).status@ == "creating"@ {
            "running"@
        } else {
            old(deployment).status@
        },
        final(deployment).log() == old(deployment).log().push(
            event(
                "info"@,
                "Scaled up from "@ + decimal(current as nat) + " to "@ + decimal(
                    (current + 1) as nat,
                ) + " replicas"@,
                "docker"@,
                "ScaleUp"@,
            ),
        ),
        *final(deployment) == (ClassicDeployment {
            status: final(deployment).status,
            restart_count: final(deployment).restart_count,
            pending_events: final(deployment).pending_events,
            ..*old(deployment)
        }),
{
    deployment.restart_count = deployment.restart_count + 1;
    let before = decimal_u64(current as u64);
    let after = decimal_u64((current + 1) as u64);
    let message = cat5("Scaled up from ", before.as_str(), " to ", after.as_str(), " replicas");
    deployment.emit_event("info", message, "docker", "ScaleUp");
    if same(deployment.status.as_str(), "pending") || same(
        deployment.status.as_str(),
        "creating",
    ) {
        deployment.status = "running".to_owned();
    }
}

/// Record that a worker's first container was removed.
pub fn classic_worker_removed(deployment: &mut ClassicDeployment)
    requires
        old(deployment).instances.len() > 0,
    ensures
        final(deployment).instances@ == old(deployment).instances@.skip(1),
        final(deployment).log() == old(deployment).log().push(
            event(
                "info"@,
                "Scaled down from "@ + decimal(old(deployment).instances@.len()) + " to "@
                    + decimal((old(deployment).instances@.len() - 1) as nat)
                    + " replicas (removed container "@ + old(deployment).instances@[0]@ + ")"@,
                "docker"@,
                "ScaleDown"@,
            ),
        ),
        *final(deployment) == (ClassicDeployment {
            instances: final(deployment).instances,
            pending_events: final(deployment).pending_events,
            ..*old(deployment)
        }),
{
    let ghost all = deployment.instances@;
    let current: usize = deployment.instances.len();
    let before = decimal_u64(current as u64);
    let after = decimal_u64((current - 1) as u64);
    let id = deployment.instances.remove(0);
    assert(deployment.instances@ =~= all.skip(1));
    let message = cat7(
        "Scaled down from ",
        before.as_str(),
        " to ",
        after.as_str(),
        " replicas (removed container ",
        id.as_str(),
        ")",
    );
    deployment.emit_event("info", message, "docker", "ScaleDown");
}

/// What a job's round does, given how many containers the job has in any state.
pub fn classic_job_begin(deployment: &ClassicDeployment, containers: usize) -> (r: ClassicAction)
    ensures
        r == if deployment.status@ == "deleted"@ {
            ClassicAction::RemoveAll
        } else if containers > 0 {
            ClassicAction::Inspect
        } else if deployment.status@ == "creating"@ || deployment.status@ == "pending"@ {
            ClassicAction::Create
        } else {
            ClassicAction::Stop
        },
{
    if same(deployment.status.as_str(), "deleted") {
        ClassicAction::RemoveAll
    } else if containers > 0 {
        ClassicAction::Inspect
    } else if same(deployment.status.as_str(), "creating") || same(
        deployment.status.as_str(),
        "pending",
    ) {
        ClassicAction::Create
    } else {
        ClassicAction::Stop
    }
}

/// The status of a job whose first container is in this state.
pub open spec fn classic_job_text(status: InstanceStatus) -> Seq<char> {
    match status {
        InstanceStatus::Running => "running"@,
        InstanceStatus::Completed => "completed"@,
        InstanceStatus::Failed => "failed"@,
    }
}

/// Take over the state of a job's first container.
pub fn classic_job_inspected(deployment: &mut ClassicDeployment, status: InstanceStatus)
    ensures
        final(deployment).status@ == classic_job_text(status),
        *final(deployment) == (ClassicDeployment {
            status: final(deployment).status,
            ..*old(deployment)
        }),
{
    let text: &str = match status {
        InstanceStatus::Running => "running",
        InstanceStatus::Completed => "completed",
        InstanceStatus::Failed => "failed",
    };
    deployment.status = text.to_owned();
}

/// Record that a job's container was started.
pub fn classic_job_created(deployment: &mut ClassicDeployment)
    ensures
        final(deployment).status@ == "running"@,
        *final(deployment) == (ClassicDeployment {
            status: final(deployment).status,
            ..*old(deployment)
        }),
{
    deployment.status = "running".to_owned();
}

// ---------------------------------------------------------------------------
// Listing
// ---------------------------------------------------------------------------

/// What the daemon is asked for.
#[derive(Debug)]
pub struct ClassicQuery {
    /// Whether containers that do not run are listed too.
    pub all: bool,
    /// The states to list; any where there is none.
    pub statuses: Vec<String>,
}

/// What the daemon is asked for. A container that was just created counts as
/// active.
pub fn classic_list_query(status: &str) -> (r: ClassicQuery)
    ensures
        r.all <==> status@ == "all"@ || status@ == "active"@,
        strs(r.statuses@) == if status@ == "all"@ {
            seq![]
        } else if status@ == "active"@ {
            seq!["running"@, "created"@, "restarting"@]
        } else {
            seq![status@]
        },
{
    let mut statuses: Vec<String> = Vec::new();
    if same(status, "all") {
        assert(strs(statuses@) =~= seq![]);
        return ClassicQuery { all: true, statuses };
    }
    if same(status, "active") {
        statuses.push("running".to_owned());
        statuses.push("created".to_owned());
        statuses.push("restarting".to_owned());
        assert(strs(statuses@) =~= seq!["running"@, "created"@, "restarting"@]);
        return ClassicQuery { all: true, statuses };
    }
    statuses.push(status.to_owned());
    assert(strs(statuses@) =~= seq![status@]);
    ClassicQuery { all: false, statuses }
}

// ---------------------------------------------------------------------------
// Health checks
// ---------------------------------------------------------------------------

/// What is said where a container has no address.
pub fn no_address_message(container_id: &str) -> (r: String)
    ensures
        r@ == "Could not get IP for container "@ + container_id@,
{
    cat2("Could not get IP for container ", container_id)
}

/// The address that is connected to.
pub fn tcp_address(ip: &str, port: u16) -> (r: String)
    ensures
        r@ == ip@ + ":"@ + decimal(port as nat),
{
    let p = decimal_u64(port as u64);
    cat3(ip, ":", p.as_str())
}

/// What came of a connection.
#[derive(Debug)]
pub enum TcpOutcome {
    Connected,
    Refused(String),
    TimedOut,
}

/// The result of a TCP check.
pub open spec fn tcp_answer(addr: Seq<char>, outcome: TcpOutcome) -> (HealthCheckStatus, Seq<char>) {
    match outcome {
        TcpOutcome::Connected => (
            HealthCheckStatus::Success,
            "TCP connection to "@ + addr + " successful"@,
        ),
        TcpOutcome::Refused(e) => (HealthCheckStatus::Failed, "TCP connection failed: "@ + e@),
        TcpOutcome::TimedOut => (
            HealthCheckStatus::Failed,
            "TCP connection timed out for "@ + addr,
        ),
    }
}

/// The result of a TCP check.
pub fn tcp_result(addr: &str, outcome: &TcpOutcome) -> (r: (HealthCheckStatus, String))
    ensures
        (r.0, r.1@) == tcp_answer(addr@, *outcome),
{
    match outcome {
        TcpOutcome::Connected => (
            HealthCheckStatus::Success,
            cat3("TCP connection to ", addr, " successful"),
        ),
        TcpOutcome::Refused(e) => (
            HealthCheckStatus::Failed,
            cat2("TCP connection failed: ", e.as_str()),
        ),
        TcpOutcome::TimedOut => (
            HealthCheckStatus::Failed,
            cat2("TCP connection timed out for ", addr),
        ),
    }
}

/// `s` with every occurrence of `pat` replaced, found from the front.
pub open spec fn replaced(s: Seq<char>, pat: Seq<char>, with: Seq<char>) -> Seq<char>
    decreases s.len(),
{
    if s.len() == 0 {
        seq![]
    } else if pat.len() > 0 && pat.is_prefix_of(s) {
        with + replaced(s.skip(pat.len() as int), pat, with)
    } else {
        seq![s[0]] + replaced(s.skip(1), pat, with)
    }
}

/// The address of an HTTP check: that of the container in place of `localhost`.
pub fn http_target(url: &str, ip: &str) -> (r: String)
    ensures
        r@ == replaced(url@, "localhost"@, ip@),
{
    let text = chars_of(url);
    let pat = chars_of("localhost");
    let with = chars_of(ip);
    let mut out: Vec<char> = Vec::new();
    let mut i: usize = 0;
    proof {
        reveal_strlit("localhost");
    }
    assert(url@.skip(0) =~= url@);
    assert(out@ + replaced(url@, pat@, with@) =~= replaced(url@, pat@, with@));
    while i < text.len()
        invariant
            text@ == url@,
            pat@ == "localhost"@,
            with@ == ip@,
            pat.len() == 9,
            i <= text.len(),
            replaced(url@, pat@, with@) == out@ + replaced(url@.skip(i as int), pat@, with@),
        decreases text.len() - i,
    {
        let ghost before = out@;
        let ghost rest = url@.skip(i as int);
        if matches_at(&text, &pat, i) {
            assert(pat@.is_prefix_of(rest)) by {
                assert(rest.subrange(0, 9) =~= pat@);
            }
            append_chars(&mut out, &with);
            assert(rest.skip(9) =~= url@.skip(i + 9));
            assert(out@ + replaced(url@.skip(i + 9), pat@, with@) =~= before + (with@ + replaced(
                url@.skip(i + 9),
                pat@,
                with@,
            )));
            i += 9;
        } else {
            assert(!pat@.is_prefix_of(rest)) by {
                if pat@.is_prefix_of(rest) {
                    assert(rest.subrange(0, 9) =~= url@.subrange(i as int, i + 9));
                }
            }
            out.push(text[i]);
            assert(rest[0] == text@[i as int]);
            assert(rest.skip(1) =~= url@.skip(i + 1));
            assert(out@ + replaced(url@.skip(i + 1), pat@, with@) =~= before + (seq![rest[0]]
                + replaced(url@.skip(i + 1), pat@, with@)));
            i += 1;
        }
    }
    assert(out@ + Seq::<char>::empty() =~= out@);
    let n: usize = out.len();
    let s = string_of(&out, 0, n);
    assert(s@ =~= out@);
    s
}

/// Append some characters.
fn append_chars(out: &mut Vec<char>, more: &Vec<char>)
    ensures
        final(out)@ == old(out)@ + more@,
{
    let ghost before = out@;
    let mut i: usize = 0;
    while i < more.len()
        invariant
            i <= more.len(),
            out@ == before + more@.take(i as int),
        decreases more.len() - i,
    {
        out.push(more[i]);
        assert(out@ =~= before + more@.take(i + 1));
        i += 1;
    }
    assert(more@.take(more.len() as int) =~= more@);
}

/// The result of an HTTP check: a success where the status is one.
pub open spec fn http_answer(url: Seq<char>, reply: Result<u16, String>) -> (
    HealthCheckStatus,
    Seq<char>,
) {
    match reply {
        Ok(code) => if 200 <= code < 300 {
            (
                HealthCheckStatus::Success,
                "HTTP check successful ("@ + decimal(code as nat) + ") for "@ + url,
            )
        } else {
            (
                HealthCheckStatus::Failed,
                "HTTP check failed with status "@ + decimal(code as nat) + " for "@ + url,
            )
        },
        Err(e) => (HealthCheckStatus::Failed, "HTTP request failed for "@ + url + ": "@ + e@),
    }
}

/// The result of an HTTP check.
pub fn http_result(url: &str, reply: &Result<u16, String>) -> (r: (HealthCheckStatus, String))
    ensures
        (r.0, r.1@) == http_answer(url@, *reply),
{
    match reply {
        Ok(code) => {
            let shown = decimal_u64(*code as u64);
            if 200 <= *code && *code < 300 {
                (
                    HealthCheckStatus::Success,
                    cat4("HTTP check successful (", shown.as_str(), ") for ", url),
                )
            } else {
                (
                    HealthCheckStatus::Failed,
                    cat4("HTTP check failed with status ", shown.as_str(), " for ", url),
                )
            }
        },
        Err(e) => (
            HealthCheckStatus::Failed,
            cat4("HTTP request failed for ", url, ": ", e.as_str()),
        ),
    }
}

// ---------------------------------------------------------------------------
// Laws
// ---------------------------------------------------------------------------

/// A worker that was given up stays so: a round does nothing and keeps its
/// status, until it is deleted.
pub proof fn law_given_up_is_sticky(d: ClassicDeployment)
    requires
        d.status@ == "CrashLoopBackOff"@,
    ensures
        classic_worker_action(d) == ClassicAction::Stop,
        classic_worker_status(d) == d.status@,
{
    assert("CrashLoopBackOff"@ != "deleted"@) by {
        reveal_strlit("CrashLoopBackOff");
        reveal_strlit("deleted");
        assert("CrashLoopBackOff"@.len() == 16);
        assert("deleted"@.len() == 7);
    }
}

/// A round never moves a worker past its replicas, and creates no container for
/// one that has used up its restarts.
pub proof fn law_classic_rounds_converge(d: ClassicDeployment)
    ensures
        classic_worker_action(d) == ClassicAction::Create ==> d.restart_count
            < CLASSIC_RESTART_LIMIT,
        classic_worker_action(d) == ClassicAction::Create ==> d.instances.len() + 1 <= d.replicas,
        classic_worker_action(d) == ClassicAction::RemoveFirst ==> d.instances.len() - 1
            >= d.replicas,
{
}

/// How many steps are left at most.
pub open spec fn classic_rank(step: ClassicStep) -> nat {
    match step {
        ClassicStep::LookForImage => 9,
        ClassicStep::Pull => 8,
        ClassicStep::LookAgain => 7,
        ClassicStep::LookForNetwork => 6,
        ClassicStep::CreateNetwork => 5,
        ClassicStep::Mounts => 4,
        ClassicStep::Create => 3,
        ClassicStep::Connect => 2,
        ClassicStep::Start => 1,
        ClassicStep::Done => 0,
        ClassicStep::Failed => 0,
    }
}

/// Every creation ends.
pub proof fn law_classic_creation_ends(step: ClassicStep, ok: bool)
    ensures
        step != ClassicStep::Done && step != ClassicStep::Failed ==> classic_rank(
            classic_next(step, ok),
        ) < classic_rank(step),
{
}

/// A text that does not name this machine is left as it is.
pub proof fn law_other_hosts_are_kept(url: Seq<char>, ip: Seq<char>)
    requires
        !contains(url, "localhost"@),
    ensures
        replaced(url, "localhost"@, ip) == url,
    decreases url.len(),
{
    if url.len() > 0 {
        let pat = "localhost"@;
        assert(!contains(url.skip(1), pat)) by {
            if contains(url.skip(1), pat) {
                let i = choose|i: int| occurs_at(url.skip(1), pat, i);
                assert(url.skip(1).subrange(i, i + pat.len()) =~= url.subrange(
                    i + 1,
                    i + 1 + pat.len(),
                ));
                assert(occurs_at(url, pat, i + 1));
            }
        }
        assert(!pat.is_prefix_of(url)) by {
            if pat.is_prefix_of(url) {
                assert(url.subrange(0, pat.len() as int) =~= pat);
                assert(occurs_at(url, pat, 0));
            }
        }
        law_other_hosts_are_kept(url.skip(1), ip);
        assert(seq![url[0]] + url.skip(1) =~= url);
    }
}

/// Where names are distinct, looking one up in the list is looking it up in the
/// map that the list stands for.
proof fn lemma_lookup(entries: Seq<(String, String)>, key: Seq<char>)
    requires
        distinct_names(entries),
    ensures
        label_value(entries, key) == if entry_map(entries).dom().contains(key) {
            Some(entry_map(entries)[key])
        } else {
            None
        },
    decreases entries.len(),
{
    if entries.len() > 0 {
        let init = entries.drop_last();
        let last = entries.last();
        assert forall|a: int, b: int| 0 <= a < b < init.len() implies (#[trigger] init[a]).0@ != (
        #[trigger] init[b]).0@ by {
            assert(entries[a].0@ != entries[b].0@);
        }
        lemma_lookup(init, key);
        lemma_lookup_with_last(init, last, key);
        assert(init.push(last) =~= entries);
        if last.0@ == key && label_value(init, key) is Some {
            lemma_lookup_position(init, key);
            let i = choose|i: int| 0 <= i < init.len() && (#[trigger] init[i]).0@ == key;
            assert(entries[i].0@ != entries[entries.len() - 1].0@);
        }
    }
}

/// A name that is found stands somewhere in the list.
proof fn lemma_lookup_position(entries: Seq<(String, String)>, key: Seq<char>)
    requires
        label_value(entries, key) is Some,
    ensures
        exists|i: int| 0 <= i < entries.len() && (#[trigger] entries[i]).0@ == key,
    decreases entries.len(),
{
    if entries[0].0@ != key {
        let rest = entries.skip(1);
        lemma_lookup_position(rest, key);
        let i = choose|i: int| 0 <= i < rest.len() && (#[trigger] rest[i]).0@ == key;
        assert(entries[i + 1].0@ == key);
    }
}

/// One more entry at the end is found where none before it has the name.
proof fn lemma_lookup_with_last(
    entries: Seq<(String, String)>,
    last: (String, String),
    key: Seq<char>,
)
    ensures
        label_value(entries.push(last), key) == if label_value(entries, key) is Some {
            label_value(entries, key)
        } else if last.0@ == key {
            Some(last.1@)
        } else {
            None
        },
    decreases entries.len(),
{
    let all = entries.push(last);
    if entries.len() > 0 {
        lemma_lookup_with_last(entries.skip(1), last, key);
        assert(all.skip(1) =~= entries.skip(1).push(last));
    } else {
        assert(all.skip(1) =~= seq![]);
        assert(label_value(all.skip(1), key) is None);
    }
}

/// A configuration volume stands for the text that its key has in the JSON text
/// of its configuration. Where that text cannot be read, or does not hold the
/// key, there is an error that says so.
pub proof fn law_config_volume_shows_its_key(
    volume: DeploymentVolume,
    configs: Seq<ConfigData>,
    config: ConfigData,
    data: Seq<char>,
    source: String,
    key: String,
)
    requires
        volume.source == Some(source),
        volume.key == Some(key),
        config_named(configs, source@) == Some(config),
        holds_text(config, data),
    ensures
        config_content(volume, configs) == match json_texts(data) {
            Ok(entries) => if entries.dom().contains(key@) {
                Ok(entries[key@])
            } else {
                Err(
                    ClassicErrorView::ConfigKeyNotFound(
                        "Key '"@ + key@ + "' not found in config '"@ + source@ + "'"@,
                    ),
                )
            },
            Err(error) => Err(ClassicErrorView::Other(error)),
        },
{
    if let Ok(list) = config.entries {
        if json_texts(data) is Ok {
            lemma_lookup(list@, key@);
        }
    }
}

/// Whether a creation is over.
pub open spec fn classic_is_over(step: ClassicStep) -> bool {
    step is Done || step is Failed
}

/// A creation from its beginning, after steps with these outcomes.
pub open spec fn classic_run(config: Option<DeploymentConfig>, outcomes: Seq<bool>) -> Run<ClassicStep, bool> {
    run_on(
        |step: ClassicStep, o: bool| classic_next(step, o),
        |step: ClassicStep| classic_is_over(step),
        fresh(classic_first(config)),
        outcomes,
    )
}

/// What was done where a creation stands.
spec fn classic_history(config: Option<DeploymentConfig>, run: Run<ClassicStep, bool>) -> bool {
    let never = config matches Some(c) && c.image_pull_policy@ == "Never"@;
    let looked = run.step is LookForImage || run.step is Pull || run.step is LookAgain;
    &&& never ==> !looked && !run.tried(ClassicStep::LookForImage) && !run.tried(
        ClassicStep::Pull,
    ) && !run.tried(ClassicStep::LookAgain)
    &&& run.step is LookForImage ==> forall|s: ClassicStep| !#[trigger] run.tried(s)
    &&& run.step is Pull || run.tried(ClassicStep::Pull) ==> run.failed(ClassicStep::LookForImage)
    &&& run.step is Pull ==> !run.tried(ClassicStep::Pull)
    &&& run.step is LookAgain || run.tried(ClassicStep::LookAgain) ==> run.done(ClassicStep::Pull)
    &&& run.done(ClassicStep::LookForImage) ==> !run.failed(ClassicStep::LookForImage)
    &&& !looked && !(run.step is Failed) && !never ==> run.done(ClassicStep::LookForImage)
        || run.done(ClassicStep::LookAgain)
    &&& looked || run.step is LookForNetwork ==> !run.tried(ClassicStep::LookForNetwork)
    &&& run.step is CreateNetwork || run.tried(ClassicStep::CreateNetwork) ==> run.failed(
        ClassicStep::LookForNetwork,
    )
    &&& run.done(ClassicStep::LookForNetwork) ==> !run.failed(ClassicStep::LookForNetwork)
    &&& run.step is Mounts || run.step is Create || run.step is Connect || run.step is Start
        || run.step is Done ==> run.done(ClassicStep::LookForNetwork) || run.done(
        ClassicStep::CreateNetwork,
    )
    &&& run.step is Create || run.step is Connect || run.step is Start || run.step is Done
        ==> run.done(ClassicStep::Mounts)
    &&& run.step is Connect || run.step is Start || run.step is Done ==> run.done(
        ClassicStep::Create,
    )
    &&& run.step is Start || run.step is Done ==> run.done(ClassicStep::Connect)
    &&& run.step is Done ==> run.done(ClassicStep::Start)
    &&& !(run.step is Failed) ==> forall|s: ClassicStep| #[trigger]
        run.failed(s) ==> s is LookForImage || s is LookForNetwork
    &&& run.step is Failed ==> exists|s: ClassicStep| #[trigger]
        run.failed(s) && !(s is LookForImage) && !(s is LookForNetwork)
}

/// A step keeps the history.
proof fn lemma_classic_history(config: Option<DeploymentConfig>, r: Run<ClassicStep, bool>, o: bool, after: Run<ClassicStep, bool>)
    requires
        classic_history(config, r),
        !classic_is_over(r.step),
        after.step == classic_next(r.step, o),
        after.seen == r.seen.insert((r.step, o)),
    ensures
        classic_history(config, after),
{
    assert(forall|s: ClassicStep| #[trigger] after.done(s) <==> r.done(s) || (s == r.step && o));
    assert(forall|s: ClassicStep| #[trigger] after.failed(s) <==> r.failed(s) || (s == r.step && !o));
    assert(forall|s: ClassicStep| #[trigger] after.tried(s) <==> r.tried(s) || s == r.step);
    assert(r.step is LookForImage ==> !r.tried(ClassicStep::LookForImage));
    assert(!o ==> after.failed(r.step));
}

/// However its steps turn out, a creation that is done has the image, found or
/// pulled, unless pulling is forbidden; has the network, found or made; and has
/// provided the volumes and made, connected and started the container, in this
/// order. The image is pulled exactly where it was looked for and not found, and
/// the network made likewise; that they were not there is never the reason of a
/// failure. Where every other step succeeds the creation is done.
pub proof fn law_classic_done_means_created(config: Option<DeploymentConfig>, outcomes: Seq<bool>)
    ensures
        ({
            let run = classic_run(config, outcomes);
            let never = config matches Some(c) && c.image_pull_policy@ == "Never"@;
            &&& never ==> !run.tried(ClassicStep::LookForImage) && !run.tried(ClassicStep::Pull)
            &&& run.tried(ClassicStep::Pull) ==> run.failed(ClassicStep::LookForImage)
            &&& run.tried(ClassicStep::CreateNetwork) ==> run.failed(ClassicStep::LookForNetwork)
            &&& run.step is Done ==> {
                &&& never || run.done(ClassicStep::LookForImage) || (run.done(ClassicStep::Pull)
                    && run.done(ClassicStep::LookAgain))
                &&& run.done(ClassicStep::LookForNetwork) || run.done(ClassicStep::CreateNetwork)
                &&& run.done(ClassicStep::Mounts) && run.done(ClassicStep::Create)
                &&& run.done(ClassicStep::Connect) && run.done(ClassicStep::Start)
                &&& forall|s: ClassicStep| #[trigger]
                    run.failed(s) ==> s is LookForImage || s is LookForNetwork
            }
            &&& run.step is Start ==> run.done(ClassicStep::Connect)
            &&& run.step is Connect ==> run.done(ClassicStep::Create)
            &&& run.step is Create ==> run.done(ClassicStep::Mounts) && (run.done(
                ClassicStep::LookForNetwork,
            ) || run.done(ClassicStep::CreateNetwork))
            &&& run.step is Failed ==> exists|s: ClassicStep| #[trigger]
                run.failed(s) && !(s is LookForImage) && !(s is LookForNetwork)
            &&& outcomes.len() >= 9 && (forall|s: ClassicStep| #[trigger]
                run.failed(s) ==> s is LookForImage || s is LookForNetwork) ==> run.step is Done
        }),
{
    let next = |step: ClassicStep, o: bool| classic_next(step, o);
    let over = |step: ClassicStep| classic_is_over(step);
    let inv = |run: Run<ClassicStep, bool>| classic_history(config, run);
    let first = fresh::<ClassicStep, bool>(classic_first(config));
    assert forall|r: Run<ClassicStep, bool>, o: bool| inv(r) && !over(r.step) implies inv(
        #[trigger] advanced(next, r, o),
    ) by {
        lemma_classic_history(config, r, o, advanced(next, r, o));
    }
    lemma_run_keeps(next, over, inv, first, outcomes);
    if outcomes.len() >= 9 {
        let rank = |step: ClassicStep| classic_rank(step) as int;
        assert forall|s: ClassicStep, o: bool| !over(s) implies 0 <= rank(#[trigger] next(s, o))
            < rank(s) by {
            law_classic_creation_ends(s, o);
        }
        lemma_run_ends(next, over, rank, first, outcomes);
    }
}

/// A round of a worker moves by at most one container. A deleted worker, and no
/// other, loses all of them; one that was started five times, or was given up, is
/// left alone; any other moves towards its replicas, and stands still exactly
/// where it has them. Only the fifth start changes the status.
pub proof fn law_classic_worker_moves_by_one(d: &mut ClassicDeployment, r: ClassicAction)
    requires
        call_ensures(classic_worker_begin, (d,), r),
    ensures
        ({
            let deleted = old(d).status@ == "deleted"@;
            let given_up = old(d).status@ == "CrashLoopBackOff"@ || old(d).restart_count >= 5;
            &&& r is RemoveAll <==> deleted
            &&& r is Create <==> !deleted && !given_up && old(d).instances@.len() < old(d).replicas
            &&& r is RemoveFirst <==> !deleted && !given_up && old(d).instances@.len() > old(
                d,
            ).replicas
            &&& r !is Inspect
            &&& !deleted && given_up ==> final(d).status@ == "CrashLoopBackOff"@
            &&& deleted || !given_up ==> final(d).status@ == old(d).status@
        }),
        final(d).instances == old(d).instances,
        final(d).restart_count == old(d).restart_count,
        final(d).pending_events == old(d).pending_events,
{
    reveal_strlit("CrashLoopBackOff");
    reveal_strlit("deleted");
    assert("CrashLoopBackOff"@.len() == 16);
    assert("deleted"@.len() == 7);
}

/// A worker's new container counts as one start and is told of; a worker that
/// waited for it runs from now on, and any other status stays.
pub proof fn law_classic_start_is_counted(d: &mut ClassicDeployment, current: usize, r: ())
    requires
        old(d).restart_count < u32::MAX,
        current < usize::MAX,
        call_ensures(classic_worker_created, (d, current), r),
    ensures
        final(d).restart_count - old(d).restart_count == 1,
        old(d).status@ == "pending"@ || old(d).status@ == "creating"@ ==> final(d).status@
            == "running"@,
        old(d).status@ != "pending"@ && old(d).status@ != "creating"@ ==> final(d).status@ == old(
            d,
        ).status@,
        final(d).instances == old(d).instances,
        final(d).log().len() == old(d).log().len() + 1,
        final(d).log().drop_last() == old(d).log(),
        final(d).log().last().level == "info"@,
        final(d).log().last().reason == Some("ScaleUp"@),
        contains(final(d).log().last().message, decimal((current + 1) as nat) + " replicas"@),
{
    let n = decimal(current as nat);
    let m = decimal((current + 1) as nat);
    let head = "Scaled up from "@ + n + " to "@;
    let tail = m + " replicas"@;
    let text = head + m + " replicas"@;
    assert(text.subrange(head.len() as int, (head.len() + tail.len()) as int) =~= tail);
    assert(occurs_at(text, tail, head.len() as int));
    assert(final(d).log().drop_last() =~= old(d).log());
}

/// A worker that loses a container loses the first one, keeps the others in their
/// order, and is told which it was.
pub proof fn law_classic_removal_takes_the_first(d: &mut ClassicDeployment, r: ())
    requires
        old(d).instances@.len() > 0,
        call_ensures(classic_worker_removed, (d,), r),
    ensures
        seq![old(d).instances@[0]] + final(d).instances@ == old(d).instances@,
        final(d).log().len() == old(d).log().len() + 1,
        final(d).log().last().reason == Some("ScaleDown"@),
        (old(d).instances@[0]@ + ")"@).is_suffix_of(final(d).log().last().message),
        final(d).status == old(d).status,
        final(d).restart_count == old(d).restart_count,
{
    let k = old(d).instances@.len();
    let id = old(d).instances@[0]@;
    assert(seq![old(d).instances@[0]] + old(d).instances@.skip(1) =~= old(d).instances@);
    let text = final(d).log().last().message;
    let tail = id + ")"@;
    assert(text == "Scaled down from "@ + decimal(k) + " to "@ + decimal((k - 1) as nat)
        + " replicas (removed container "@ + id + ")"@);
    assert(text.subrange(text.len() - tail.len(), text.len() as int) =~= tail);
}

/// A job is removed where it is deleted; otherwise its containers are looked at
/// where it has any, and one is made only for a job that still waits for it.
pub proof fn law_classic_job_is_started_once(d: &ClassicDeployment, n: usize, r: ClassicAction)
    requires
        call_ensures(classic_job_begin, (d, n), r),
    ensures
        r is RemoveAll <==> d.status@ == "deleted"@,
        r is Inspect <==> d.status@ != "deleted"@ && n > 0,
        r is Create <==> n == 0 && (d.status@ == "creating"@ || d.status@ == "pending"@),
        r !is RemoveFirst,
{
    reveal_strlit("creating");
    reveal_strlit("pending");
    reveal_strlit("deleted");
    assert("creating"@.len() == 8);
    assert("pending"@[0] == 'p');
    assert("deleted"@[0] == 'd');
    assert("deleted"@.len() == 7);
}

/// A job takes over the state of its container, and nothing else changes: two
/// looks leave the same status exactly where the states were the same.
pub proof fn law_classic_job_follows_its_container(
    d: &mut ClassicDeployment,
    status: InstanceStatus,
    other: &mut ClassicDeployment,
    other_status: InstanceStatus,
    r: (),
)
    requires
        call_ensures(classic_job_inspected, (d, status), r),
        call_ensures(classic_job_inspected, (other, other_status), r),
    ensures
        final(d).status@ == final(other).status@ <==> status == other_status,
        status == InstanceStatus::Completed <==> final(d).status@ == "completed"@,
        status == InstanceStatus::Failed <==> final(d).status@ == "failed"@,
        status == InstanceStatus::Running <==> final(d).status@ == "running"@,
        final(d).instances == old(d).instances,
        final(d).restart_count == old(d).restart_count,
        final(d).pending_events == old(d).pending_events,
{
    reveal_strlit("running");
    reveal_strlit("completed");
    reveal_strlit("failed");
    assert("running"@.len() == 7);
    assert("completed"@.len() == 9);
    assert("failed"@.len() == 6);
}

/// A failed creation leaves a status that tells what kind of failure it was, one
/// event that is an error, and one restart more for a worker and none for a job.
pub proof fn law_classic_failure_is_recorded(
    d: &mut ClassicDeployment,
    err: &ClassicError,
    worker: bool,
    r: (),
)
    requires
        worker ==> old(d).restart_count < u32::MAX,
        call_ensures(classic_create_failed, (d, err, worker), r),
    ensures
        worker ==> final(d).restart_count == old(d).restart_count + 1,
        !worker ==> final(d).restart_count == old(d).restart_count,
        final(d).status@ == "ImagePullBackOff"@ <==> *err is ImageNotFound
            || *err is ImagePullFailed,
        final(d).status@ == "CreateContainerError"@ <==> *err is InstanceCreationFailed,
        final(d).status@ == "NetworkError"@ <==> *err is NetworkCreationFailed,
        final(d).status@ == "ConfigError"@ <==> *err is ConfigNotFound || *err is ConfigKeyNotFound,
        final(d).status@ == "FileSystemError"@ <==> *err is FileSystemError,
        final(d).status@ == "Error"@ <==> *err is ConnectionFailed || *err is Other,
        final(d).log().len() == old(d).log().len() + 1,
        final(d).log().last().level == "error"@,
        final(d).log().last().component == "docker"@,
        *err is ImageNotFound || *err is ImagePullFailed ==> contains(
            final(d).log().last().message,
            old(d).image@,
        ),
        *err is NetworkCreationFailed || *err is ConfigNotFound || *err is ConfigKeyNotFound
            ==> contains(final(d).log().last().message, old(d).namespace@),
        *err matches ClassicError::InstanceCreationFailed(msg) ==> msg@.is_suffix_of(
            final(d).log().last().message,
        ),
        *err matches ClassicError::ConnectionFailed(msg) ==> msg@.is_suffix_of(
            final(d).log().last().message,
        ),
        *err matches ClassicError::Other(msg) ==> msg@.is_suffix_of(final(d).log().last().message),
        final(d).instances == old(d).instances,
{
    reveal_strlit("ImagePullBackOff");
    reveal_strlit("CreateContainerError");
    reveal_strlit("NetworkError");
    reveal_strlit("ConfigError");
    reveal_strlit("FileSystemError");
    reveal_strlit("Error");
    assert("ImagePullBackOff"@.len() == 16);
    assert("CreateContainerError"@.len() == 20);
    assert("NetworkError"@.len() == 12);
    assert("ConfigError"@.len() == 11);
    assert("FileSystemError"@.len() == 15);
    assert("Error"@.len() == 5);
    let text = final(d).log().last().message;
    lemma_quoted("Image '"@, old(d).image@, "' not found"@);
    lemma_quoted("Failed to pull image '"@, old(d).image@, "'"@);
    lemma_quoted("Failed to create network for namespace '"@, old(d).namespace@, "'"@);
    lemma_quoted("Config not found in namespace '"@, old(d).namespace@, "'"@);
    lemma_quoted("Config key not found in namespace '"@, old(d).namespace@, "'"@);
    match err@ {
        ClassicErrorView::InstanceCreationFailed(msg) => {
            assert(text.subrange(text.len() - msg.len(), text.len() as int) =~= msg);
        },
        ClassicErrorView::ConnectionFailed(msg) => {
            assert(text.subrange(text.len() - msg.len(), text.len() as int) =~= msg);
        },
        ClassicErrorView::Other(msg) => {
            assert(text.subrange(text.len() - msg.len(), text.len() as int) =~= msg);
        },
        _ => {},
    }
}

/// What stands between two texts is in the whole.
proof fn lemma_quoted(a: Seq<char>, b: Seq<char>, c: Seq<char>)
    ensures
        contains(a + b + c, b),
{
    let s = a + b + c;
    assert(s.subrange(a.len() as int, (a.len() + b.len()) as int) =~= b);
    assert(occurs_at(s, b, a.len() as int));
}

/// The name and the tag of an image give the image again, with a colon between
/// them that is its first; where it has none the tag is the implied one.
pub proof fn law_classic_image_is_cut_at_the_first_colon(image: &str, r: (String, String))
    requires
        call_ensures(split_image, (image,), r),
    ensures
        image@.contains(':') ==> r.0@ + seq![':'] + r.1@ == image@ && !r.0@.contains(':'),
        !image@.contains(':') ==> r.0@ == image@ && r.1@ == "latest"@,
{
    lemma_first_pos(image@, ':');
    let at = first_pos(image@, ':');
    if at < image@.len() {
        assert(image@[at] == ':');
        assert(r.0@ + seq![':'] + r.1@ =~= image@);
        if r.0@.contains(':') {
            let j = choose|j: int| 0 <= j < r.0@.len() && r.0@[j] == ':';
            assert(image@[j] == ':');
        }
    } else if image@.contains(':') {
        let j = choose|j: int| 0 <= j < image@.len() && image@[j] == ':';
        assert(image@[j] == ':');
    }
}

/// An image is pulled first unless the policy forbids it; and a creation begins
/// by looking for the image exactly where it may be pulled.
pub proof fn law_classic_pull_is_forbidden_by_never(
    config: &Option<DeploymentConfig>,
    pulled: bool,
    step: ClassicStep,
)
    requires
        call_ensures(should_pull, (config,), pulled),
        call_ensures(first_classic_step, (config,), step),
    ensures
        pulled <==> !(*config matches Some(c) && c.image_pull_policy@ == "Never"@),
        pulled <==> step is LookForImage,
        !pulled <==> step is LookForNetwork,
{
}

/// A pull fails exactly where some reply is an error; a reply that says that the
/// image does not exist is the failure, whatever follows it.
pub proof fn law_classic_pull_reports_a_failure(
    replies: &Vec<Option<String>>,
    more: &Vec<Option<String>>,
    front: Option<String>,
    r: Result<(), ClassicError>,
    after: Result<(), ClassicError>,
)
    requires
        more@ == seq![front] + replies@,
        call_ensures(pull_result, (replies,), r),
        call_ensures(pull_result, (more,), after),
    ensures
        replies@.len() == 0 ==> r is Ok,
        front is None ==> (after is Ok <==> r is Ok),
        front is None ==> (after matches Err(e) ==> (r matches Err(f) && e@ == f@)),
        front is Some ==> after is Err,
        front matches Some(text) ==> {
            let missing = contains(text@, "404"@) || contains(text@, "not found"@) || contains(
                text@,
                "manifest unknown"@,
            );
            &&& missing ==> (after matches Err(e) && e@ == ClassicErrorView::ImageNotFound(text@))
            &&& !missing && r is Ok ==> (after matches Err(e) && e@
                == ClassicErrorView::ImagePullFailed(text@))
            &&& !missing ==> (r matches Err(f) ==> (after matches Err(e) && e@ == f@))
        },
{
    assert(more@[0] == front);
    assert(more@.skip(1) =~= replies@);
    if let Some(text) = front {
        lemma_last_error_counts(replies@, None, Some(text@));
    }
}

/// An earlier error matters only where no later one comes.
proof fn lemma_last_error_counts(
    replies: Seq<Option<String>>,
    a: Option<Seq<char>>,
    b: Option<Seq<char>>,
)
    ensures
        a is None && pull_failure(replies, a) is None ==> pull_failure(replies, b) == match b {
            Some(text) => Some(ClassicErrorView::ImagePullFailed(text)),
            None => None,
        },
        a is None && pull_failure(replies, a) is Some ==> pull_failure(replies, b)
            == pull_failure(replies, a),
        b is Some ==> pull_failure(replies, b) is Some,
    decreases replies.len(),
{
    if replies.len() > 0 {
        lemma_last_error_counts(replies.skip(1), a, b);
        if let Some(text) = replies[0] {
            lemma_last_error_counts(replies.skip(1), a, Some(text@));
        }
    }
}

/// A mount stands where its volume says, and is read-only exactly where the
/// volume says so. A bind or a named volume needs a source, which is mounted as it
/// is: as a directory of the host only for a bind whose source is a path. Any other
/// volume is a file that is rendered, below the directory of its workload.
pub proof fn law_classic_mount_follows_its_volume(
    volume: &DeploymentVolume,
    configs: &Vec<ConfigData>,
    deployment_id: &str,
    suffix: &str,
    r: Result<PlannedMount, ClassicError>,
)
    requires
        call_ensures(create_mount_from_volume, (volume, configs, deployment_id, suffix), r),
    ensures
        ({
            let bind = volume.kind@ == "bind"@;
            let named = volume.kind@ == "volume"@;
            &&& bind || named ==> (r is Ok <==> volume.source is Some)
            &&& volume.source is None ==> (r matches Err(e) && e is InstanceCreationFailed)
            &&& r matches Ok(p) ==> {
                &&& p.mount.target@ == volume.destination@
                &&& p.mount.read_only <==> volume.permission@ == "ro"@
                &&& p.content is Some <==> !bind && !named
                &&& p.mount.kind == MountKind::Volume <==> named || (bind && !(
                volume.source->0@.len() > 0 && volume.source->0@[0] == '/'))
                &&& bind || named ==> p.mount.source@ == volume.source->0@
                &&& !bind && !named ==> p.mount.kind == MountKind::Bind && p.mount.source@
                    == "/tmp/ring_configs/"@ + deployment_id@ + "/"@ + suffix@
            }
        }),
{
    reveal_strlit("bind");
    reveal_strlit("volume");
    reveal_strlit("/");
    assert("bind"@.len() == 4);
    assert("volume"@.len() == 6);
    if let Some(source) = volume.source {
        if source@.len() > 0 {
            assert("/"@.is_prefix_of(source@) <==> source@[0] == '/') by {
                if source@[0] == '/' {
                    assert(source@.subrange(0, 1) =~= "/"@);
                } else {
                    assert(source@.subrange(0, 1)[0] != "/"@[0]);
                }
            }
        } else {
            assert(!"/"@.is_prefix_of(source@));
        }
    }
}

/// A rendered file holds the text that the volume's key has in the first
/// configuration with the source's name. Without such a configuration, with one
/// that cannot be read, without a key or with one that is not there, the volume is
/// an error that tells which.
pub proof fn law_classic_config_is_looked_up(
    volume: &DeploymentVolume,
    configs: &Vec<ConfigData>,
    front: ConfigData,
    more: &Vec<ConfigData>,
    deployment_id: &str,
    suffix: &str,
    r: Result<PlannedMount, ClassicError>,
    after: Result<PlannedMount, ClassicError>,
    source: String,
    entries: &Vec<(String, String)>,
    key: &str,
    found: Option<String>,
)
    requires
        volume.kind@ != "bind"@ && volume.kind@ != "volume"@,
        volume.source == Some(source),
        more@ == seq![front] + configs@,
        call_ensures(create_mount_from_volume, (volume, configs, deployment_id, suffix), r),
        call_ensures(create_mount_from_volume, (volume, more, deployment_id, suffix), after),
        front.entries matches Ok(list) ==> list@ == entries@,
        volume.key matches Some(k) ==> k@ == key@,
        call_ensures(find_label, (entries, key), found),
    ensures
        configs@.len() == 0 ==> (r matches Err(e) && e is ConfigNotFound),
        front.name@ == source@ ==> {
            &&& after is Ok <==> front.entries is Ok && volume.key is Some && found is Some
            &&& after matches Ok(p) ==> opt_str(p.content) == opt_str(found)
            &&& front.entries matches Err(text) ==> (after matches Err(e) && e@
                == ClassicErrorView::Other(text@))
            &&& front.entries is Ok && (volume.key is None || found is None) ==> (after matches Err(
                e,
            ) && e is ConfigKeyNotFound)
        },
        front.name@ != source@ ==> {
            &&& after is Ok <==> r is Ok
            &&& after matches Ok(p) ==> (r matches Ok(q) && opt_str(p.content) == opt_str(q.content))
            &&& after matches Err(e) ==> (r matches Err(f) && e@ == f@)
        },
{
    assert(more@[0] == front);
    assert(more@.skip(1) =~= configs@);
}

/// Every secret becomes one line of the environment, in their order.
pub proof fn law_classic_secrets_become_variables(
    secrets: &Vec<(String, String)>,
    more: &Vec<(String, String)>,
    last: (String, String),
    before: Vec<String>,
    after: Vec<String>,
)
    requires
        more@ == secrets@.push(last),
        call_ensures(secret_env, (secrets,), before),
        call_ensures(secret_env, (more,), after),
    ensures
        before@.len() == secrets@.len(),
        strs(after@) == strs(before@).push(last.0@ + "="@ + last.1@),
{
    assert(strs(before@).len() == before@.len());
    assert(secret_lines(more@) =~= secret_lines(secrets@).push(last.0@ + "="@ + last.1@));
}

/// A container is created from what its workload declares: the image, the command
/// and the mounts as they are, one variable for every secret, and a user and
/// privileges exactly where they are declared.
pub proof fn law_classic_container_is_as_declared(
    d: &ClassicDeployment,
    mounts: Vec<ContainerMount>,
    body: ClassicBody,
    env: Vec<String>,
    user: Option<String>,
)
    requires
        call_ensures(classic_body, (d, mounts), body),
        call_ensures(secret_env, (&d.secrets,), env),
        call_ensures(build_user_config, (&d.config,), user),
        distinct_names(d.labels@),
    ensures
        body.image@ == d.image@,
        body.cmd@ == d.command@,
        body.mounts@ == mounts@,
        strs(body.env@) == strs(env@),
        body.env@.len() == d.secrets@.len(),
        opt_str(body.user) == opt_str(user),
        (forall|i: int| 0 <= i < d.labels@.len() ==> (#[trigger] d.labels@[i]).0@
            != "ring_deployment"@) ==> entry_map(body.labels@).dom().contains("ring_deployment"@)
            && entry_map(body.labels@)["ring_deployment"@] == d.id@,
        distinct_names(body.labels@),
{
    assert(strs(body.env@).len() == body.env@.len());
    let base = Map::<Seq<char>, Seq<char>>::empty().insert("ring_deployment"@, d.id@);
    law_own_labels_win(base, d.labels@, "ring_deployment"@);
}

/// A container that is recorded is the last of the workload's, and nothing else
/// changes.
pub proof fn law_classic_container_is_recorded(d: &mut ClassicDeployment, id: &str, r: ())
    requires
        call_ensures(record_classic, (d, id), r),
    ensures
        final(d).instances@.len() == old(d).instances@.len() + 1,
        final(d).instances@.last()@ == id@,
        forall|i: int|
            0 <= i < old(d).instances@.len() ==> (#[trigger] final(d).instances@[i])@ == old(
                d,
            ).instances@[i]@,
        final(d).restart_count == old(d).restart_count,
        final(d).status == old(d).status,
{
    let a = old(d).instances@;
    let b = final(d).instances@;
    assert(strs(a).len() == a.len());
    assert(strs(b).len() == b.len());
    assert(strs(b).last() == b.last()@);
    assert forall|i: int| 0 <= i < a.len() implies (#[trigger] b[i])@ == a[i]@ by {
        assert(strs(b)[i] == b[i]@);
        assert(strs(a)[i] == a[i]@);
    }
}

/// The removal of a workload's containers is told of exactly where it had any,
/// with how many there were.
pub proof fn law_classic_deletion_is_told(d: &mut ClassicDeployment, kind: &str, r: ())
    requires
        call_ensures(classic_removed, (d, kind), r),
    ensures
        old(d).instances@.len() == 0 ==> final(d).log() == old(d).log(),
        old(d).instances@.len() > 0 ==> {
            &&& final(d).log().len() == old(d).log().len() + 1
            &&& final(d).log().last().level == "info"@
            &&& final(d).log().last().reason == Some("ContainerDeletion"@)
            &&& ("Deleted "@ + decimal(old(d).instances@.len())).is_prefix_of(
                final(d).log().last().message,
            )
        },
        final(d).status == old(d).status,
        final(d).restart_count == old(d).restart_count,
{
    if old(d).instances@.len() > 0 {
        let head = "Deleted "@ + decimal(old(d).instances@.len());
        let text = final(d).log().last().message;
        assert(text.subrange(0, head.len() as int) =~= head);
    }
}

/// A listing of all states takes containers that do not run too and leaves no
/// state out; the active ones are those that run, were made or start again; any
/// other word is the one state that is asked for.
pub proof fn law_classic_listing_asks_for_states(status: &str, r: ClassicQuery, wanted: String)
    requires
        call_ensures(classic_list_query, (status,), r),
    ensures
        status@ == "all"@ ==> r.all && r.statuses@.len() == 0,
        status@ == "active"@ ==> r.all && (strs(r.statuses@).contains(wanted@) <==> wanted@
            == "running"@ || wanted@ == "created"@ || wanted@ == "restarting"@),
        status@ != "all"@ && status@ != "active"@ ==> !r.all && (strs(r.statuses@).contains(
            wanted@,
        ) <==> wanted@ == status@),
{
    reveal_strlit("all");
    reveal_strlit("active");
    assert("all"@.len() == 3);
    assert("active"@.len() == 6);
    assert(strs(r.statuses@).len() == r.statuses@.len());
    if status@ == "active"@ {
        let s = seq!["running"@, "created"@, "restarting"@];
        assert(s[0] == "running"@ && s[1] == "created"@ && s[2] == "restarting"@);
        assert(s.contains(wanted@) <==> wanted@ == s[0] || wanted@ == s[1] || wanted@ == s[2]);
    } else if status@ != "all"@ {
        let s = seq![status@];
        assert(s[0] == status@);
        assert(s.contains(wanted@) <==> wanted@ == s[0]);
    }
}

/// A check succeeds exactly where a connection was made, or where an answer came
/// with a status between 200 and 299; an error is told of with its text.
pub proof fn law_classic_check_needs_an_answer(
    addr: &str,
    outcome: &TcpOutcome,
    tcp: (HealthCheckStatus, String),
    reply: &Result<u16, String>,
    http: (HealthCheckStatus, String),
)
    requires
        call_ensures(tcp_result, (addr, outcome), tcp),
        call_ensures(http_result, (addr, reply), http),
    ensures
        tcp.0 == HealthCheckStatus::Success <==> *outcome is Connected,
        tcp.0 == HealthCheckStatus::Failed <==> *outcome !is Connected,
        *outcome matches TcpOutcome::Refused(e) ==> e@.is_suffix_of(tcp.1@),
        http.0 == HealthCheckStatus::Success <==> (*reply matches Ok(code) && code / 100 == 2),
        http.0 == HealthCheckStatus::Failed <==> !(*reply matches Ok(code) && code / 100 == 2),
        *reply matches Err(e) ==> e@.is_suffix_of(http.1@),
        *reply is Ok ==> addr@.is_suffix_of(http.1@),
{
    let t = tcp.1@;
    let h = http.1@;
    if let TcpOutcome::Refused(e) = outcome {
        assert(t.subrange(t.len() - e@.len(), t.len() as int) =~= e@);
    }
    match reply {
        Ok(code) => {
            assert(h.subrange(h.len() - addr@.len(), h.len() as int) =~= addr@);
        },
        Err(e) => {
            assert(h.subrange(h.len() - e@.len(), h.len() as int) =~= e@);
        },
    }
}

/// An address that begins with this machine's name is asked at the container
/// instead; any other first character stays.
pub proof fn law_classic_target_is_the_container(
    url: &str,
    rest: &str,
    ip: &str,
    r: String,
    tail: String,
)
    requires
        call_ensures(http_target, (url, ip), r),
        call_ensures(http_target, (rest, ip), tail),
    ensures
        url@ == "localhost"@ + rest@ ==> r@ == ip@ + tail@,
        url@.len() > 0 && rest@ == url@.skip(1) && !"localhost"@.is_prefix_of(url@) ==> r@
            == seq![url@[0]] + tail@,
        url@.len() == 0 ==> r@.len() == 0,
        !contains(url@, "localhost"@) ==> r@ == url@,
{
    reveal_strlit("localhost");
    if url@ == "localhost"@ + rest@ {
        assert(url@.subrange(0, 9) =~= "localhost"@);
        assert(url@.skip(9) =~= rest@);
    }
    if !contains(url@, "localhost"@) {
        law_other_hosts_are_kept(url@, ip@);
    }
}

/// An error keeps the text of its cause, and is that of a missing image exactly
/// where the daemon's text says so.
pub proof fn law_classic_errors_keep_their_text(text: String, r: ClassicError)
    requires
        call_ensures(classic_daemon_error, (text,), r),
    ensures
        r@ == ClassicErrorView::ImageNotFound(text@) || r@ == ClassicErrorView::Other(text@),
        r is ImageNotFound <==> contains(text@, "404"@) || contains(text@, "not found"@)
            || contains(text@, "manifest unknown"@),
{
}

/// A workload runs to completion exactly where it is a job; one whose daemon does
/// not answer is in error, and keeps its containers and its starts.
pub proof fn law_classic_silence_is_an_error(
    d: &mut ClassicDeployment,
    r: (),
    other: &ClassicDeployment,
    job: bool,
)
    requires
        call_ensures(classic_unreachable, (d,), r),
        call_ensures(classic_is_job, (other,), job),
    ensures
        final(d).status@ == "Error"@,
        final(d).instances == old(d).instances,
        final(d).restart_count == old(d).restart_count,
        job <==> other.kind@ == "job"@,
{
}

/// A creation that is done stays done, and one that failed stays failed, whatever is
/// reported then; and it is done only by a start that succeeds.
pub proof fn law_classic_end_is_final(step: ClassicStep, ok: bool, r: ClassicStep)
    requires
        call_ensures(next_classic_step, (step, ok), r),
    ensures
        step is Done ==> r is Done,
        step is Failed ==> r is Failed,
        r is Done ==> step is Done || (step is Start && ok),
{
}

} // verus!
