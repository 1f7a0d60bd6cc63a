//! What a container is created with, and the steps that create it.
use vstd::prelude::*;
use crate::docker::{DockerImage, ImagePullPolicy, ImageReference, ReferenceView, image_parts, parse_image_reference, pull_policy};
use crate::docker::lifecycle::{scratch_dir, scratch_dir_text};
use crate::entries::{copy_strings, entry_map, env_lines, instance_labels, label_map, plain_env, upsert};
use crate::error::{RuntimeError, RuntimeErrorView};
use crate::foreign::{content_hash, default_hash, lower_case, unicode_lowercase};
use crate::models::{Deployment, DeploymentConfig, HealthCheck, NetworkMode, Port, Protocol, ResolvedMount, Resource, ResourceSpec, distinct_names};
use crate::quantities::{duration_value, parse_duration};
use crate::resources::{declared_cpu, declared_memory, spec_cpu, spec_memory};
use crate::steps::{Run, advanced, fresh, lemma_run_ends, lemma_run_keeps, run_on};
use crate::text::{ascii_lowered, begins, cat2, cat3, cat4, cat5, chars_of, contains, decimal, decimal_u64, find_from, first_pos, has, hexadecimal, hexadecimal_u64, lemma_first_pos, lemma_first_pos_unique, opt_str, same, str_pairs, string_of, strs};

verus! {

// ---------------------------------------------------------------------------
// Settings
// ---------------------------------------------------------------------------

/// The user that a container runs as: `uid:gid`, or `uid` where no group is
/// given.
pub open spec fn user_text(config: Option<DeploymentConfig>) -> Option<Seq<char>> {
    match config {
        Some(c) => match c.user {
            Some(u) => match (u.id, u.group) {
                (Some(uid), Some(gid)) => Some(decimal(uid as nat) + ":"@ + decimal(gid as nat)),
                (Some(uid), None) => Some(decimal(uid as nat)),
                _ => None,
            },
            None => None,
        },
        None => None,
    }
}

/// The user that a container runs as. A group without a user is ignored.
pub fn build_user_config(deployment_config: &Option<DeploymentConfig>) -> (r: Option<String>)
    ensures
        opt_str(r) == user_text(*deployment_config),
{
    match deployment_config {
        Some(config) => match &config.user {
            Some(user) => match (user.id, user.group) {
                (Some(uid), Some(gid)) => {
                    let u = decimal_u64(uid as u64);
                    let g = decimal_u64(gid as u64);
                    Some(cat3(u.as_str(), ":", g.as_str()))
                },
                (Some(uid), None) => Some(decimal_u64(uid as u64)),
                _ => None,
            },
            None => None,
        },
        None => None,
    }
}

/// Whether a container is privileged, where the deployment says so.
pub open spec fn privileged(config: Option<DeploymentConfig>) -> Option<bool> {
    match config {
        Some(c) => match c.user {
            Some(u) => u.privileged,
            None => None,
        },
        None => None,
    }
}

/// Whether a container is privileged, where the deployment says so.
pub fn get_privileged_config(deployment_config: &Option<DeploymentConfig>) -> (r: Option<bool>)
    ensures
        r == privileged(*deployment_config),
{
    match deployment_config {
        Some(config) => match &config.user {
            Some(user) => user.privileged,
            None => None,
        },
        None => None,
    }
}

/// The digest of an entry `repo@digest`, where it has an at sign.
pub open spec fn entry_digest(entry: Seq<char>) -> Option<Seq<char>> {
    let at = first_pos(entry, '@');
    if at < entry.len() {
        Some(entry.skip(at + 1))
    } else {
        None
    }
}

/// Whether an entry is `repo@digest` for this repository.
pub open spec fn entry_matches(entry: Seq<char>, repo: Seq<char>) -> bool {
    entry_digest(entry) is Some && entry.take(first_pos(entry, '@')) == repo
}

/// The digest of the first entry for `repo`.
pub open spec fn matching_digest(entries: Seq<Seq<char>>, repo: Seq<char>) -> Option<Seq<char>>
    decreases entries.len(),
{
    if entries.len() == 0 {
        None
    } else if entry_matches(entries[0], repo) {
        entry_digest(entries[0])
    } else {
        matching_digest(entries.skip(1), repo)
    }
}

/// The digest of the first entry that has one.
pub open spec fn first_digest(entries: Seq<Seq<char>>) -> Option<Seq<char>>
    decreases entries.len(),
{
    if entries.len() == 0 {
        None
    } else if entry_digest(entries[0]) is Some {
        entry_digest(entries[0])
    } else {
        first_digest(entries.skip(1))
    }
}

/// The digest that is recorded for an image of `repo`: that of the repository's
/// own entry, or else the first there is.
pub open spec fn recorded_digest(repo_digests: Option<Vec<String>>, repo: Seq<char>) -> Option<
    Seq<char>,
> {
    match repo_digests {
        Some(list) => match matching_digest(strs(list@), repo) {
            Some(d) => Some(d),
            None => first_digest(strs(list@)),
        },
        None => None,
    }
}

/// Split `repo@digest` at the first at sign.
fn split_entry(entry: &str) -> (r: Option<(String, String)>)
    ensures
        match r {
            Some(p) => first_pos(entry@, '@') < entry@.len() && p.0@ == entry@.take(
                first_pos(entry@, '@'),
            ) && p.1@ == entry@.skip(first_pos(entry@, '@') + 1),
            None => entry_digest(entry@) is None,
        },
{
    let text = chars_of(entry);
    assert(entry@.skip(0) =~= entry@);
    let at: usize = find_from(&text, '@', 0);
    if at < text.len() {
        let head = string_of(&text, 0, at);
        let tail = string_of(&text, at + 1, text.len());
        assert(head@ =~= entry@.take(at as int));
        assert(tail@ =~= entry@.skip(at + 1));
        Some((head, tail))
    } else {
        None
    }
}

/// Pick the digest of an image among the daemon's entries. An image can carry
/// one entry per registry, so the entry of the requested repository is
/// preferred.
pub fn extract_digest(repo_digests: &Option<Vec<String>>, repo: &str) -> (r: Option<String>)
    ensures
        opt_str(r) == recorded_digest(*repo_digests, repo@),
{
    let entries = match repo_digests {
        Some(list) => list,
        None => return None,
    };
    let ghost all = strs(entries@);
    let mut i: usize = 0;
    let mut fallback: Option<String> = None;
    assert(all.skip(0) =~= all);
    while i < entries.len()
        invariant
            i <= entries.len(),
            all == strs(entries@),
            *repo_digests == Some(*entries),
            matching_digest(all, repo@) == matching_digest(all.skip(i as int), repo@),
            match fallback {
                Some(d) => first_digest(all) == Some(d@),
                None => first_digest(all) == first_digest(all.skip(i as int)),
            },
        decreases entries.len() - i,
    {
        let ghost rest = all.skip(i as int);
        assert(rest[0] == entries@[i as int]@);
        assert(rest.skip(1) =~= all.skip(i + 1));
        if let Some((entry_repo, digest)) = split_entry(entries[i].as_str()) {
            if same(entry_repo.as_str(), repo) {
                return Some(digest);
            }
            if fallback.is_none() {
                fallback = Some(digest);
            }
        }
        i += 1;
    }
    fallback
}

/// A container's own health check.
#[derive(Debug)]
pub struct HealthConfig {
    pub test: Option<Vec<String>>,
    pub interval: Option<i64>,
    pub timeout: Option<i64>,
    pub retries: Option<i64>,
}

/// The first readiness check that runs a command.
pub open spec fn first_command_readiness(checks: Seq<HealthCheck>) -> Option<HealthCheck>
    decreases checks.len(),
{
    if checks.len() == 0 {
        None
    } else if checks[0] is Command && checks[0].readiness() {
        Some(checks[0])
    } else {
        first_command_readiness(checks.skip(1))
    }
}

/// A span of time in nanoseconds; zero where it cannot be read.
pub open spec fn nanos_or_zero(s: Seq<char>) -> int {
    match duration_value(s) {
        Some(v) => v,
        None => 0,
    }
}

/// The health check that a command readiness check stands for.
pub open spec fn health_config_for(check: HealthCheck, r: HealthConfig) -> bool {
    match check {
        HealthCheck::Command { command, interval, timeout, threshold, .. } => {
            &&& r.test matches Some(test) && strs(test@) == seq!["CMD-SHELL"@, command@]
            &&& r.interval == Some(nanos_or_zero(interval@) as i64)
            &&& r.timeout == Some(nanos_or_zero(timeout@) as i64)
            &&& r.retries == Some(threshold as i64)
        },
        _ => false,
    }
}

/// A span of time in nanoseconds; zero where it cannot be read.
fn to_nanos(s: &str) -> (r: i64)
    ensures
        r == nanos_or_zero(s@) as i64,
{
    match parse_duration(s) {
        Some(v) => v,
        None => 0,
    }
}

/// Translate the first readiness check that runs a command into the container's
/// own health check. The daemon has no TCP or HTTP probe, so other readiness
/// checks are not translated.
pub fn build_health_config(health_checks: &Vec<HealthCheck>) -> (r: Option<HealthConfig>)
    ensures
        match first_command_readiness(health_checks@) {
            Some(check) => r matches Some(config) && health_config_for(check, config),
            None => r is None,
        },
{
    let mut i: usize = 0;
    assert(health_checks@.skip(0) =~= health_checks@);
    while i < health_checks.len()
        invariant
            i <= health_checks.len(),
            first_command_readiness(health_checks@) == first_command_readiness(
                health_checks@.skip(i as int),
            ),
        decreases health_checks.len() - i,
    {
        let ghost rest = health_checks@.skip(i as int);
        assert(rest[0] == health_checks[i as int]);
        assert(rest.skip(1) =~= health_checks@.skip(i + 1));
        let check = &health_checks[i];
        if check.is_readiness() {
            if let HealthCheck::Command { command, interval, timeout, threshold, .. } = check {
                let mut test: Vec<String> = Vec::new();
                test.push("CMD-SHELL".to_owned());
                test.push(command.clone());
                assert(strs(test@) =~= seq!["CMD-SHELL"@, command@]);
                return Some(
                    HealthConfig {
                        test: Some(test),
                        interval: Some(to_nanos(interval.as_str())),
                        timeout: Some(to_nanos(timeout.as_str())),
                        retries: Some(*threshold as i64),
                    },
                );
            }
        }
        i += 1;
    }
    None
}

// ---------------------------------------------------------------------------
// Images
// ---------------------------------------------------------------------------

/// Whether an image is served from the local cache where it is there.
pub open spec fn cache_preferred(
    policy: ImagePullPolicy,
    reference: ReferenceView,
    has_auth: bool,
) -> bool {
    !has_auth || policy == ImagePullPolicy::IfNotPresent || reference is Digest
}

/// Whether an image is served from the local cache where it is there: where no
/// registry credentials are configured, where the policy says so, and where
/// the reference names one image for good.
pub fn prefer_local_cache(
    policy: ImagePullPolicy,
    reference: &ImageReference,
    has_auth: bool,
) -> (r: bool)
    ensures
        r == cache_preferred(policy, reference@, has_auth),
{
    let pinned = match reference {
        ImageReference::Digest(_) => true,
        ImageReference::Tag(_) => false,
    };
    !has_auth || policy == ImagePullPolicy::IfNotPresent || pinned
}

/// What a failed pull is reported as, given the error's text in lower case.
pub open spec fn pull_error(lower: Seq<char>, msg: Seq<char>, image: Seq<char>) -> RuntimeErrorView {
    if contains(lower, "404"@) || contains(lower, "not found"@) || contains(
        lower,
        "manifest unknown"@,
    ) {
        RuntimeErrorView::ImageNotFound(msg)
    } else if contains(lower, "unauthorized"@) || contains(lower, "authentication required"@)
        || contains(lower, "denied"@) || contains(lower, "forbidden"@) {
        RuntimeErrorView::ImagePullFailed(
            "registry authentication failed for '"@ + image
                + "' — check config.server, config.username and config.password (original error: "@
                + msg + ")"@,
        )
    } else if contains(lower, "connection refused"@) || contains(lower, "no such host"@)
        || contains(lower, "dial tcp"@) || contains(lower, "timeout"@) || contains(
        lower,
        "i/o timeout"@,
    ) || contains(lower, "connection reset"@) {
        RuntimeErrorView::ImagePullFailed(
            "cannot reach the registry for '"@ + image
                + "' — is it up and the registry host correct? (original error: "@ + msg + ")"@,
        )
    } else {
        RuntimeErrorView::ImagePullFailed(msg)
    }
}

/// What a failed pull is reported as, given the error's text in lower case. An
/// image that does not exist comes first, then a registry that refuses, then
/// one that cannot be reached; any other error keeps its text.
pub fn classify_pull_text(lower: &str, msg: &str, image: &str) -> (r: RuntimeError)
    ensures
        r@ == pull_error(lower@, msg@, image@),
{
    if has(lower, "404") || has(lower, "not found") || has(lower, "manifest unknown") {
        return RuntimeError::ImageNotFound(msg.to_owned());
    }
    if has(lower, "unauthorized") || has(lower, "authentication required") || has(lower, "denied")
        || has(lower, "forbidden") {
        return RuntimeError::ImagePullFailed(
            cat5(
                "registry authentication failed for '",
                image,
                "' — check config.server, config.username and config.password (original error: ",
                msg,
                ")",
            ),
        );
    }
    if has(lower, "connection refused") || has(lower, "no such host") || has(lower, "dial tcp")
        || has(lower, "timeout") || has(lower, "i/o timeout") || has(lower, "connection reset") {
        return RuntimeError::ImagePullFailed(
            cat5(
                "cannot reach the registry for '",
                image,
                "' — is it up and the registry host correct? (original error: ",
                msg,
                ")",
            ),
        );
    }
    RuntimeError::ImagePullFailed(msg.to_owned())
}

/// Classify the text of a failed pull, whatever the case of its letters.
pub fn classify_pull_error(msg: &str, image: &str) -> (r: RuntimeError)
    ensures
        r@ == pull_error(lower_case(msg@), msg@, image@),
{
    let lower = unicode_lowercase(msg);
    classify_pull_text(lower.as_str(), msg, image)
}

/// The credentials that a deployment's settings hold, where they are complete.
pub open spec fn credentials(config: Option<DeploymentConfig>) -> Option<
    (Seq<char>, Seq<char>, Seq<char>),
> {
    match config {
        Some(c) => match (c.server, c.username, c.password) {
            (Some(s), Some(u), Some(p)) => Some((s@, u@, p@)),
            _ => None,
        },
        None => None,
    }
}

/// The contents of a triple of strings.
pub open spec fn opt_triple(o: Option<(String, String, String)>) -> Option<
    (Seq<char>, Seq<char>, Seq<char>),
> {
    match o {
        Some(t) => Some((t.0@, t.1@, t.2@)),
        None => None,
    }
}

/// The credentials that a deployment's settings hold, where they are complete.
pub fn registry_credentials(config: &Option<DeploymentConfig>) -> (r: Option<
    (String, String, String),
>)
    ensures
        opt_triple(r) == credentials(*config),
{
    match config {
        Some(c) => match (&c.server, &c.username, &c.password) {
            (Some(s), Some(u), Some(p)) => Some((s.clone(), u.clone(), p.clone())),
            _ => None,
        },
        None => None,
    }
}

/// The image that a deployment asks for.
pub fn requested_image(deployment: &Deployment) -> (r: DockerImage)
    ensures
        (r.name@, r.reference@) == image_parts(deployment.image@),
        opt_triple(r.auth) == credentials(deployment.config),
{
    let (name, reference) = parse_image_reference(deployment.image.as_str());
    DockerImage { name, reference, auth: registry_credentials(&deployment.config) }
}

/// The pull policy that a deployment asks for.
pub open spec fn policy_of(config: Option<DeploymentConfig>) -> ImagePullPolicy {
    match config {
        Some(c) => pull_policy(c.image_pull_policy@),
        None => ImagePullPolicy::Always,
    }
}

/// The pull policy that a deployment asks for; `Always` where it says nothing.
pub fn requested_policy(config: &Option<DeploymentConfig>) -> (r: ImagePullPolicy)
    ensures
        r == policy_of(*config),
{
    match config {
        Some(c) => ImagePullPolicy::parse(c.image_pull_policy.as_str()),
        None => ImagePullPolicy::Always,
    }
}

/// The tag or digest that is asked of the registry.
pub fn pull_tag(reference: &ImageReference) -> (r: String)
    ensures
        r@ == match reference@ {
            ReferenceView::Tag(t) => t,
            ReferenceView::Digest(d) => d,
        },
{
    match reference {
        ImageReference::Tag(t) => t.clone(),
        ImageReference::Digest(d) => d.clone(),
    }
}

/// The error for an image that is not in the local cache while pulling is
/// forbidden.
pub fn never_pull_error(image_name: &str) -> (r: RuntimeError)
    ensures
        r@ == RuntimeErrorView::ImageNotFound(
            "image '"@ + image_name@
                + "' not in local cache and image_pull_policy=Never forbids pulling"@,
        ),
{
    RuntimeError::ImageNotFound(
        cat3(
            "image '",
            image_name,
            "' not in local cache and image_pull_policy=Never forbids pulling",
        ),
    )
}

/// The error for an image that is not there after a pull that did not fail.
pub fn pulled_image_missing(image_name: &str) -> (r: RuntimeError)
    ensures
        r@ == RuntimeErrorView::ImageNotFound(
            "Image "@ + image_name@ + " not available after pull"@,
        ),
{
    RuntimeError::ImageNotFound(cat3("Image ", image_name, " not available after pull"))
}

// ---------------------------------------------------------------------------
// Mounts
// ---------------------------------------------------------------------------

/// What stands behind a mount.
#[derive(Clone, Copy, Debug, PartialEq, Eq, Structural)]
pub enum MountKind {
    Bind,
    Volume,
}

/// A mount of a container.
#[derive(Debug)]
pub struct ContainerMount {
    pub target: String,
    pub source: String,
    pub kind: MountKind,
    pub read_only: bool,
    /// The volume driver, where it is not the daemon's own.
    pub driver: Option<String>,
}

/// A [`ContainerMount`] by its contents.
pub struct MountView {
    pub target: Seq<char>,
    pub source: Seq<char>,
    pub kind: MountKind,
    pub read_only: bool,
    pub driver: Option<Seq<char>>,
}

impl View for ContainerMount {
    type V = MountView;

    open spec fn view(&self) -> MountView {
        MountView {
            target: self.target@,
            source: self.source@,
            kind: self.kind,
            read_only: self.read_only,
            driver: opt_str(self.driver),
        }
    }
}

/// The file in the scratch directory that holds a content with this hash.
pub open spec fn scratch_file_text(deployment_id: Seq<char>, hash: u64) -> Seq<char> {
    scratch_dir_text(deployment_id) + "/"@ + hexadecimal(hash as nat)
}

/// The file in the scratch directory that holds a content with this hash.
pub fn scratch_file(deployment_id: &str, hash: u64) -> (r: String)
    ensures
        r@ == scratch_file_text(deployment_id@, hash),
{
    let dir = scratch_dir(deployment_id);
    let name = hexadecimal_u64(hash);
    cat3(dir.as_str(), "/", name.as_str())
}

/// The mount for a resolved volume, given the hash of its content. A source
/// that is no absolute path names a volume; a rendered file is read-only.
pub open spec fn mount_for(m: ResolvedMount, deployment_id: Seq<char>, hash: u64) -> MountView {
    match m {
        ResolvedMount::Bind { source, destination, read_only } => MountView {
            target: destination@,
            source: source@,
            kind: if "/"@.is_prefix_of(source@) {
                MountKind::Bind
            } else {
                MountKind::Volume
            },
            read_only,
            driver: None,
        },
        ResolvedMount::Named { name, destination, read_only, driver } => MountView {
            target: destination@,
            source: name@,
            kind: MountKind::Volume,
            read_only,
            driver: if driver@.len() == 0 || driver@ == "local"@ {
                None
            } else {
                Some(driver@)
            },
        },
        ResolvedMount::Content { content, destination } => MountView {
            target: destination@,
            source: scratch_file_text(deployment_id, hash),
            kind: MountKind::Bind,
            read_only: true,
            driver: None,
        },
    }
}

/// The mount for a resolved volume. `hash` names the file that a rendered
/// content is kept in.
pub fn mount_with_hash(
    resolved: &ResolvedMount,
    deployment_id: &str,
    hash: u64,
) -> (r: ContainerMount)
    ensures
        r@ == mount_for(*resolved, deployment_id@, hash),
{
    match resolved {
        ResolvedMount::Bind { source, destination, read_only } => {
            let kind = if begins(source.as_str(), "/") {
                MountKind::Bind
            } else {
                MountKind::Volume
            };
            ContainerMount {
                target: destination.clone(),
                source: source.clone(),
                kind,
                read_only: *read_only,
                driver: None,
            }
        },
        ResolvedMount::Named { name, destination, read_only, driver } => {
            let other = if driver.as_str().is_empty() || same(driver.as_str(), "local") {
                None
            } else {
                Some(driver.clone())
            };
            ContainerMount {
                target: destination.clone(),
                source: name.clone(),
                kind: MountKind::Volume,
                read_only: *read_only,
                driver: other,
            }
        },
        ResolvedMount::Content { content: _, destination } => {
            ContainerMount {
                target: destination.clone(),
                source: scratch_file(deployment_id, hash),
                kind: MountKind::Bind,
                read_only: true,
                driver: None,
            }
        },
    }
}

/// The hash that names the file of a rendered content; zero where a volume has
/// none.
pub open spec fn hash_for(m: ResolvedMount) -> u64 {
    match m {
        ResolvedMount::Content { content, destination } => default_hash(content@),
        _ => 0,
    }
}

/// The mount for a resolved volume. The file that a rendered content is kept in
/// is named after a hash of the content.
pub fn create_mount_from_resolved(resolved: &ResolvedMount, deployment_id: &str) -> (r:
    ContainerMount)
    ensures
        r@ == mount_for(*resolved, deployment_id@, hash_for(*resolved)),
{
    let hash: u64 = match resolved {
        ResolvedMount::Content { content, destination: _ } => content_hash(content.as_str()),
        _ => 0,
    };
    mount_with_hash(resolved, deployment_id, hash)
}

/// A request for a volume that is kept by name.
#[derive(Debug)]
pub struct VolumeRequest {
    pub name: String,
    pub driver: String,
    pub labels: Vec<(String, String)>,
}

/// The request for a named volume: the daemon's own driver where none is given,
/// and labels that say whose it is.
pub fn named_volume_request(
    name: &str,
    driver: &str,
    namespace: &str,
    deployment_name: &str,
) -> (r: VolumeRequest)
    ensures
        r.name@ == name@,
        r.driver@ == if driver@.len() == 0 {
            "local"@
        } else {
            driver@
        },
        str_pairs(r.labels@) == seq![
            ("ring.managed"@, "true"@),
            ("ring.namespace"@, namespace@),
            ("ring.deployment"@, deployment_name@),
        ],
{
    let used = if driver.is_empty() {
        "local".to_owned()
    } else {
        driver.to_owned()
    };
    let mut labels: Vec<(String, String)> = Vec::new();
    labels.push(("ring.managed".to_owned(), "true".to_owned()));
    labels.push(("ring.namespace".to_owned(), namespace.to_owned()));
    labels.push(("ring.deployment".to_owned(), deployment_name.to_owned()));
    assert(str_pairs(labels@) =~= seq![
        ("ring.managed"@, "true"@),
        ("ring.namespace"@, namespace@),
        ("ring.deployment"@, deployment_name@),
    ]);
    VolumeRequest { name: name.to_owned(), driver: used, labels }
}

/// The error for a named volume that could not be provided.
pub fn named_volume_error(name: &str, text: &str) -> (r: RuntimeError)
    ensures
        r@ == RuntimeErrorView::InstanceCreationFailed(
            "failed to provision named volume '"@ + name@ + "': "@ + text@,
        ),
{
    RuntimeError::InstanceCreationFailed(
        cat4("failed to provision named volume '", name, "': ", text),
    )
}

// ---------------------------------------------------------------------------
// The container
// ---------------------------------------------------------------------------

/// Where a port of a container is published.
#[derive(Debug)]
pub struct PortBinding {
    pub host_ip: String,
    pub host_port: String,
}

/// A [`PortBinding`] by its contents.
pub struct BindingView {
    pub host_ip: Seq<char>,
    pub host_port: Seq<char>,
}

impl View for PortBinding {
    type V = BindingView;

    open spec fn view(&self) -> BindingView {
        BindingView { host_ip: self.host_ip@, host_port: self.host_port@ }
    }
}

/// The name of a container port: its number and its protocol.
pub open spec fn port_key(p: Port) -> Seq<char> {
    decimal(p.target as nat) + "/"@ + p.protocol.name()
}

/// Where a port is published: on every interface where none is given.
pub open spec fn port_binding(p: Port) -> BindingView {
    BindingView {
        host_ip: match p.host_ip {
            Some(ip) => ip@,
            None => "0.0.0.0"@,
        },
        host_port: decimal(p.published as nat),
    }
}

/// The published ports by container port. Of two that name the same container
/// port the later one counts.
pub open spec fn port_map(ports: Seq<Port>) -> Map<Seq<char>, BindingView>
    decreases ports.len(),
{
    if ports.len() == 0 {
        Map::empty()
    } else {
        port_map(ports.drop_last()).insert(port_key(ports.last()), port_binding(ports.last()))
    }
}

/// The published ports by container port.
pub fn port_bindings(ports: &Vec<Port>) -> (r: Vec<(String, PortBinding)>)
    ensures
        entry_map(r@) == port_map(ports@),
        distinct_names(r@),
        r.len() == 0 <==> ports.len() == 0,
{
    let mut out: Vec<(String, PortBinding)> = Vec::new();
    let mut i: usize = 0;
    while i < ports.len()
        invariant
            i <= ports.len(),
            distinct_names(out@),
            entry_map(out@) == port_map(ports@.take(i as int)),
            out.len() == 0 <==> i == 0,
        decreases ports.len() - i,
    {
        let p = &ports[i];
        let number = decimal_u64(p.target as u64);
        let key = cat3(number.as_str(), "/", p.protocol.as_str());
        let host_ip = match &p.host_ip {
            Some(ip) => ip.clone(),
            None => "0.0.0.0".to_owned(),
        };
        let binding = PortBinding { host_ip, host_port: decimal_u64(p.published as u64) };
        upsert(&mut out, key.as_str(), binding);
        assert(ports@.take(i + 1).drop_last() =~= ports@.take(i as int));
        assert(out.len() > 0) by {
            assert(entry_map(out@).dom().contains(key@));
        }
        i += 1;
    }
    assert(ports@.take(ports.len() as int) =~= ports@);
    out
}

/// The names in a list of entries.
pub open spec fn names<V>(entries: Seq<(String, V)>) -> Seq<Seq<char>> {
    entries.map_values(|e: (String, V)| e.0@)
}

/// The ports that a container exposes: those that are published, or nothing
/// where none is. A binding whose port is not exposed would be ignored.
pub fn exposed_ports(bindings: &Vec<(String, PortBinding)>) -> (r: Option<Vec<String>>)
    ensures
        bindings.len() == 0 <==> r is None,
        r matches Some(list) ==> strs(list@) == names(bindings@),
{
    if bindings.len() == 0 {
        return None;
    }
    let mut out: Vec<String> = Vec::new();
    let mut i: usize = 0;
    while i < bindings.len()
        invariant
            i <= bindings.len(),
            out.len() == i,
            forall|j: int| 0 <= j < i ==> (#[trigger] out@[j])@ == bindings@[j].0@,
        decreases bindings.len() - i,
    {
        out.push(bindings[i].0.clone());
        i += 1;
    }
    assert(strs(out@) =~= names(bindings@));
    Some(out)
}

/// Whether a deployment shares the host's network.
pub open spec fn host_network(d: &Deployment) -> bool {
    d.network matches Some(n) && n.mode == NetworkMode::Host
}

/// Whether a deployment shares the host's network.
pub fn uses_host_network(deployment: &Deployment) -> (r: bool)
    ensures
        r == host_network(deployment),
{
    match &deployment.network {
        Some(n) => n.mode == NetworkMode::Host,
        None => false,
    }
}

/// The network of a namespace.
pub fn network_name(namespace: &str) -> (r: String)
    ensures
        r@ == "ring_"@ + namespace@,
{
    cat2("ring_", namespace)
}

/// The name of a new instance, given its random suffix.
pub open spec fn instance_name_text(d: &Deployment, suffix: Seq<char>) -> Seq<char> {
    d.namespace@ + "_"@ + d.name@ + "_"@ + suffix
}

/// The name of a new instance, given its random suffix.
pub fn instance_name(deployment: &Deployment, suffix: &str) -> (r: String)
    ensures
        r@ == instance_name_text(deployment, suffix@),
{
    cat5(deployment.namespace.as_str(), "_", deployment.name.as_str(), "_", suffix)
}

/// Everything that a container is created with.
#[derive(Debug)]
pub struct ContainerBody {
    pub image: String,
    pub cmd: Vec<String>,
    pub env: Vec<String>,
    pub labels: Vec<(String, String)>,
    pub mounts: Vec<ContainerMount>,
    pub privileged: Option<bool>,
    pub network_mode: Option<String>,
    pub port_bindings: Option<Vec<(String, PortBinding)>>,
    pub exposed_ports: Option<Vec<String>>,
    pub nano_cpus: Option<i64>,
    pub memory: Option<i64>,
    pub memory_reservation: Option<i64>,
    pub user: Option<String>,
    pub healthcheck: Option<HealthConfig>,
}

/// One side of the declared resources.
pub open spec fn limits_of(d: &Deployment) -> Option<ResourceSpec> {
    match d.resources {
        Some(r) => r.limits,
        None => None,
    }
}

/// One side of the declared resources.
pub open spec fn requests_of(d: &Deployment) -> Option<ResourceSpec> {
    match d.resources {
        Some(r) => r.requests,
        None => None,
    }
}

/// An amount as the daemon takes it.
pub open spec fn as_i64(o: Option<int>) -> Option<i64> {
    match o {
        Some(v) => Some(v as i64),
        None => None,
    }
}

/// Build what a container of the deployment is created with.
pub fn container_body(deployment: &Deployment, mounts: Vec<ContainerMount>) -> (r: ContainerBody)
    ensures
        r.image@ == deployment.image@,
        r.cmd@ == deployment.command@,
        strs(r.env@) == env_lines(deployment.environment@),
        entry_map(r.labels@) == label_map(
            "ring_deployment"@,
            deployment.id@,
            deployment.labels@,
        ),
        distinct_names(r.labels@),
        r.mounts == mounts,
        r.privileged == privileged(deployment.config),
        opt_str(r.network_mode) == if host_network(deployment) {
            Some("host"@)
        } else {
            None
        },
        r.port_bindings is None <==> deployment.ports.len() == 0,
        r.port_bindings matches Some(list) ==> entry_map(list@) == port_map(deployment.ports@)
            && distinct_names(list@) && (r.exposed_ports matches Some(exposed) && strs(exposed@)
            == names(list@)),
        r.exposed_ports is None <==> deployment.ports.len() == 0,
        r.nano_cpus == as_i64(spec_cpu(limits_of(deployment))),
        r.memory == as_i64(spec_memory(limits_of(deployment))),
        r.memory_reservation == as_i64(spec_memory(requests_of(deployment))),
        opt_str(r.user) == user_text(deployment.config),
        match first_command_readiness(deployment.health_checks@) {
            Some(check) => r.healthcheck matches Some(config) && health_config_for(check, config),
            None => r.healthcheck is None,
        },
{
    let bindings = port_bindings(&deployment.ports);
    let exposed = exposed_ports(&bindings);
    let (nano_cpus, memory, memory_reservation): (Option<i64>, Option<i64>, Option<i64>) = match
        &deployment.resources {
        Some(res) => (
            declared_cpu(&res.limits),
            declared_memory(&res.limits),
            declared_memory(&res.requests),
        ),
        None => (None, None, None),
    };
    ContainerBody {
        image: deployment.image.clone(),
        cmd: copy_strings(&deployment.command),
        env: plain_env(&deployment.environment),
        labels: instance_labels("ring_deployment", deployment.id.as_str(), &deployment.labels),
        mounts,
        privileged: get_privileged_config(&deployment.config),
        network_mode: if uses_host_network(deployment) {
            Some("host".to_owned())
        } else {
            None
        },
        port_bindings: if bindings.len() == 0 {
            None
        } else {
            Some(bindings)
        },
        exposed_ports: exposed,
        nano_cpus,
        memory,
        memory_reservation,
        user: build_user_config(&deployment.config),
        healthcheck: build_health_config(&deployment.health_checks),
    }
}

/// The names by which a container is found in its network.
pub fn network_aliases(deployment: &Deployment, container_name: &str) -> (r: Vec<String>)
    ensures
        strs(r@) == seq![deployment.name@, container_name@],
{
    let mut out: Vec<String> = Vec::new();
    out.push(deployment.name.clone());
    out.push(container_name.to_owned());
    assert(strs(out@) =~= seq![deployment.name@, container_name@]);
    out
}

/// The error for a network that could not be created.
pub fn network_error(network_name: &str, text: &str) -> (r: RuntimeError)
    ensures
        r@ == RuntimeErrorView::NetworkCreationFailed(
            "Failed to create network "@ + network_name@ + ": "@ + text@,
        ),
{
    RuntimeError::NetworkCreationFailed(
        cat4("Failed to create network ", network_name, ": ", text),
    )
}

/// The error for a container that could not be connected to its network.
pub fn connect_network_error(text: &str) -> (r: RuntimeError)
    ensures
        r@ == RuntimeErrorView::InstanceCreationFailed(
            "Docker failed to connect to network: "@ + text@,
        ),
{
    RuntimeError::InstanceCreationFailed(cat2("Docker failed to connect to network: ", text))
}

/// The error for a container that could not be started.
pub fn start_error(text: &str) -> (r: RuntimeError)
    ensures
        r@ == RuntimeErrorView::InstanceCreationFailed(
            "Docker failed to start container: "@ + text@,
        ),
{
    RuntimeError::InstanceCreationFailed(cat2("Docker failed to start container: ", text))
}

// ---------------------------------------------------------------------------
// The steps of a creation
// ---------------------------------------------------------------------------

/// What the steps of a creation depend on.
#[derive(Clone, Copy, Debug, PartialEq, Eq, Structural)]
pub struct CreatePlan {
    pub policy: ImagePullPolicy,
    /// Whether the image is taken from the local cache where it is there.
    pub prefer_cache: bool,
    pub host_network: bool,
    /// How many volumes are mounted.
    pub mounts: usize,
}

/// A step of a creation.
#[derive(Clone, Copy, Debug, PartialEq, Eq, Structural)]
pub enum CreateStep {
    /// Compare the memory that is needed with what the host has.
    CheckMemory,
    /// Look for the image in the local cache.
    InspectLocal,
    /// Fetch the image from its registry.
    Pull,
    /// Look for the image after it was fetched.
    InspectPulled,
    /// See that the network of the namespace exists.
    EnsureNetwork,
    /// Provide the volume with this index.
    Mount(usize),
    /// Create the container.
    Create,
    /// Connect the container to the network.
    Connect,
    /// Start the container.
    Start,
    /// Remove the container: connecting or starting it failed.
    Undo,
    /// The container is up.
    Finished,
    /// The creation failed, and nothing of it is left.
    Failed,
}

/// The plan of a creation.
pub open spec fn create_plan(d: &Deployment, mounts: nat) -> CreatePlan {
    CreatePlan {
        policy: policy_of(d.config),
        prefer_cache: cache_preferred(
            policy_of(d.config),
            image_parts(d.image@).1,
            credentials(d.config) is Some,
        ),
        host_network: host_network(d),
        mounts: mounts as usize,
    }
}

/// Make the plan of a creation.
pub fn plan_creation(deployment: &Deployment, mounts: usize) -> (r: CreatePlan)
    ensures
        r == create_plan(deployment, mounts as nat),
{
    let image = requested_image(deployment);
    let policy = requested_policy(&deployment.config);
    let has_auth = image.auth.is_some();
    CreatePlan {
        policy,
        prefer_cache: prefer_local_cache(policy, &image.reference, has_auth),
        host_network: uses_host_network(deployment),
        mounts,
    }
}

/// The step that mounts volume `i`, or creates the container where there is no
/// such volume.
pub open spec fn mount_or_create(plan: CreatePlan, i: int) -> CreateStep {
    if i < plan.mounts {
        CreateStep::Mount(i as usize)
    } else {
        CreateStep::Create
    }
}

/// The step once the image is there.
pub open spec fn after_image(plan: CreatePlan) -> CreateStep {
    if plan.host_network {
        mount_or_create(plan, 0)
    } else {
        CreateStep::EnsureNetwork
    }
}

/// The step that follows, given whether the last one succeeded.
pub open spec fn create_next(plan: CreatePlan, step: CreateStep, ok: bool) -> CreateStep {
    match step {
        CreateStep::CheckMemory => if !ok {
            CreateStep::Failed
        } else if plan.policy == ImagePullPolicy::Never || plan.prefer_cache {
            CreateStep::InspectLocal
        } else {
            CreateStep::Pull
        },
        CreateStep::InspectLocal => if ok {
            after_image(plan)
        } else if plan.policy == ImagePullPolicy::Never {
            CreateStep::Failed
        } else {
            CreateStep::Pull
        },
        CreateStep::Pull => if ok {
            CreateStep::InspectPulled
        } else {
            CreateStep::Failed
        },
        CreateStep::InspectPulled => if ok {
            after_image(plan)
        } else {
            CreateStep::Failed
        },
        CreateStep::EnsureNetwork => if ok {
            mount_or_create(plan, 0)
        } else {
            CreateStep::Failed
        },
        CreateStep::Mount(i) => if ok {
            mount_or_create(plan, i + 1)
        } else {
            CreateStep::Failed
        },
        CreateStep::Create => if !ok {
            CreateStep::Failed
        } else if plan.host_network {
            CreateStep::Start
        } else {
            CreateStep::Connect
        },
        CreateStep::Connect => if ok {
            CreateStep::Start
        } else {
            CreateStep::Undo
        },
        CreateStep::Start => if ok {
            CreateStep::Finished
        } else {
            CreateStep::Undo
        },
        CreateStep::Undo => CreateStep::Failed,
        CreateStep::Finished => CreateStep::Finished,
        CreateStep::Failed => CreateStep::Failed,
    }
}

/// The step that follows, given whether the last one succeeded.
pub fn next_create_step(plan: CreatePlan, step: CreateStep, ok: bool) -> (r: CreateStep)
    ensures
        r == create_next(plan, step, ok),
{
    let first_mount = if plan.mounts > 0 {
        CreateStep::Mount(0)
    } else {
        CreateStep::Create
    };
    let with_image = if plan.host_network {
        first_mount
    } else {
        CreateStep::EnsureNetwork
    };
    match step {
        CreateStep::CheckMemory => {
            if !ok {
                CreateStep::Failed
            } else if plan.policy == ImagePullPolicy::Never || plan.prefer_cache {
                CreateStep::InspectLocal
            } else {
                CreateStep::Pull
            }
        },
        CreateStep::InspectLocal => {
            if ok {
                with_image
            } else if plan.policy == ImagePullPolicy::Never {
                CreateStep::Failed
            } else {
                CreateStep::Pull
            }
        },
        CreateStep::Pull => {
            if ok {
                CreateStep::InspectPulled
            } else {
                CreateStep::Failed
            }
        },
        CreateStep::InspectPulled => {
            if ok {
                with_image
            } else {
                CreateStep::Failed
            }
        },
        CreateStep::EnsureNetwork => {
            if ok {
                first_mount
            } else {
                CreateStep::Failed
            }
        },
        CreateStep::Mount(i) => {
            if !ok {
                CreateStep::Failed
            } else if i < plan.mounts && i + 1 < plan.mounts {
                CreateStep::Mount(i + 1)
            } else {
                CreateStep::Create
            }
        },
        CreateStep::Create => {
            if !ok {
                CreateStep::Failed
            } else if plan.host_network {
                CreateStep::Start
            } else {
                CreateStep::Connect
            }
        },
        CreateStep::Connect => {
            if ok {
                CreateStep::Start
            } else {
                CreateStep::Undo
            }
        },
        CreateStep::Start => {
            if ok {
                CreateStep::Finished
            } else {
                CreateStep::Undo
            }
        },
        CreateStep::Undo => CreateStep::Failed,
        CreateStep::Finished => CreateStep::Finished,
        CreateStep::Failed => CreateStep::Failed,
    }
}

/// Record the digest of the image once it was found.
pub fn record_image(deployment: &mut Deployment, repo_digests: &Option<Vec<String>>, repo: &str)
    ensures
        opt_str(final(deployment).image_digest) == recorded_digest(*repo_digests, repo@),
        *final(deployment) == (Deployment {
            image_digest: final(deployment).image_digest,
            ..*old(deployment)
        }),
{
    deployment.image_digest = extract_digest(repo_digests, repo);
}

/// Record a container that was created.
pub fn record_created(deployment: &mut Deployment, container_id: &str)
    ensures
        final(deployment).instance_ids() == old(deployment).instance_ids().push(container_id@),
        final(deployment).instances@.drop_last() == old(deployment).instances@,
        *final(deployment) == (Deployment {
            instances: final(deployment).instances,
            ..*old(deployment)
        }),
{
    let ghost before = deployment.instances@;
    deployment.instances.push(container_id.to_owned());
    assert(deployment.instances@.drop_last() =~= before);
    assert(strs(deployment.instances@) =~= strs(before).push(container_id@));
}

/// A list without its last entry.
pub open spec fn without_last<T>(list: Seq<T>) -> Seq<T> {
    if list.len() == 0 {
        list
    } else {
        list.drop_last()
    }
}

/// Forget the container that was recorded last: it was removed again.
pub fn forget_created(deployment: &mut Deployment)
    ensures
        final(deployment).instances@ == without_last(old(deployment).instances@),
        *final(deployment) == (Deployment {
            instances: final(deployment).instances,
            ..*old(deployment)
        }),
{
    let _ = deployment.instances.pop();
    assert(deployment.instances@ =~= without_last(old(deployment).instances@));
}

// ---------------------------------------------------------------------------
// Laws
// ---------------------------------------------------------------------------

/// Whether a container exists on the host while this step is taken.
pub open spec fn container_exists(step: CreateStep) -> bool {
    step is Connect || step is Start || step is Undo || step is Finished
}

/// A creation that fails leaves no container behind: once one exists, a step
/// that does not succeed leads to its removal, and only from there to failure.
pub proof fn law_failed_creation_leaves_nothing(plan: CreatePlan, step: CreateStep, ok: bool)
    ensures
        container_exists(step) && create_next(plan, step, ok) is Failed ==> step is Undo,
        container_exists(step) && !(step is Undo) ==> container_exists(create_next(plan, step, ok)),
        container_exists(create_next(plan, step, ok)) && !container_exists(step) ==> step is Create
            && ok,
        create_next(plan, step, ok) is Finished && !(step is Finished) ==> step is Start && ok,
{
}

/// How many steps a creation can still take.
pub open spec fn create_rank(plan: CreatePlan, step: CreateStep) -> int {
    match step {
        CreateStep::CheckMemory => plan.mounts + 9,
        CreateStep::InspectLocal => plan.mounts + 8,
        CreateStep::Pull => plan.mounts + 7,
        CreateStep::InspectPulled => plan.mounts + 6,
        CreateStep::EnsureNetwork => plan.mounts + 5,
        CreateStep::Mount(i) => if i < plan.mounts {
            plan.mounts - i + 4
        } else {
            5
        },
        CreateStep::Create => 4,
        CreateStep::Connect => 3,
        CreateStep::Start => 2,
        CreateStep::Undo => 1,
        CreateStep::Finished => 0,
        CreateStep::Failed => 0,
    }
}

/// To forget a container that was recorded leaves the instances as they were
/// before it.
pub proof fn law_forgetting_undoes_recording(instances: Seq<String>, id: String)
    ensures
        without_last(instances.push(id)) == instances,
{
    assert(instances.push(id).drop_last() =~= instances);
}

/// A creation comes to an end: every step leaves fewer to take.
pub proof fn law_creation_ends(plan: CreatePlan, step: CreateStep, ok: bool)
    ensures
        !(step is Finished) && !(step is Failed) ==> 0 <= create_rank(
            plan,
            create_next(plan, step, ok),
        ) < create_rank(plan, step),
{
}

/// Where pulling is forbidden no step leads to a pull.
pub proof fn law_never_means_no_pull(plan: CreatePlan, step: CreateStep, ok: bool)
    requires
        plan.policy == ImagePullPolicy::Never,
    ensures
        !(create_next(plan, step, ok) is Pull),
{
}

/// Where no registry credentials are configured the local cache is asked before
/// any registry, whatever the policy.
pub proof fn law_no_credentials_means_cache_first(d: &Deployment, mounts: nat)
    requires
        credentials(d.config) is None,
    ensures
        create_next(create_plan(d, mounts), CreateStep::CheckMemory, true)
            is InspectLocal,
{
}

/// Where a creation stands after some outcomes, and whether it has a container
/// on the host, given where it stood and whether it had one.
pub open spec fn creation_after(
    plan: CreatePlan,
    step: CreateStep,
    exists_now: bool,
    outcomes: Seq<bool>,
) -> (CreateStep, bool)
    decreases outcomes.len(),
{
    if outcomes.len() == 0 {
        (step, exists_now)
    } else {
        let ok = outcomes[0];
        let exists_next = match step {
            CreateStep::Create => ok,
            CreateStep::Undo => false,
            _ => exists_now,
        };
        creation_after(plan, create_next(plan, step, ok), exists_next, outcomes.skip(1))
    }
}

/// However its steps turn out, a creation from its beginning has a container on
/// the host exactly between making it and undoing it, so one that failed has
/// none and one that finished has one.
pub proof fn law_whole_creation(plan: CreatePlan, outcomes: Seq<bool>)
    ensures
        ({
            let (step, exists_now) = creation_after(
                plan,
                CreateStep::CheckMemory,
                false,
                outcomes,
            );
            &&& exists_now == container_exists(step)
            &&& step is Failed ==> !exists_now
            &&& step is Finished ==> exists_now
        }),
        outcomes.len() >= plan.mounts + 9 ==> {
            let step = creation_after(plan, CreateStep::CheckMemory, false, outcomes).0;
            step is Failed || step is Finished
        },
{
    lemma_creation_run(plan, CreateStep::CheckMemory, outcomes);
}

/// A run from any step keeps track of the container, and ends.
proof fn lemma_creation_run(plan: CreatePlan, step: CreateStep, outcomes: Seq<bool>)
    ensures
        ({
            let (end, exists_now) = creation_after(plan, step, container_exists(step), outcomes);
            &&& exists_now == container_exists(end)
            &&& outcomes.len() >= create_rank(plan, step) ==> end is Failed || end is Finished
        }),
    decreases outcomes.len(),
{
    if outcomes.len() > 0 {
        let next = create_next(plan, step, outcomes[0]);
        law_creation_ends(plan, step, outcomes[0]);
        law_failed_creation_leaves_nothing(plan, step, outcomes[0]);
        lemma_creation_run(plan, next, outcomes.skip(1));
    }
}

/// The place of a step in the order of a creation that goes well; none for the
/// steps of one that does not.
pub open spec fn create_place(step: CreateStep) -> int {
    match step {
        CreateStep::CheckMemory => 0,
        CreateStep::InspectLocal => 1,
        CreateStep::Pull => 2,
        CreateStep::InspectPulled => 3,
        CreateStep::EnsureNetwork => 4,
        CreateStep::Mount(_) => 5,
        CreateStep::Create => 6,
        CreateStep::Connect => 7,
        CreateStep::Start => 8,
        CreateStep::Finished => 9,
        _ => -1,
    }
}

/// Whether a creation is over.
pub open spec fn creation_is_over(step: CreateStep) -> bool {
    step is Finished || step is Failed
}

/// A creation from its beginning, after steps with these outcomes.
pub open spec fn creation_run(plan: CreatePlan, outcomes: Seq<bool>) -> Run<CreateStep, bool> {
    run_on(
        |step: CreateStep, o: bool| create_next(plan, step, o),
        |step: CreateStep| creation_is_over(step),
        fresh(CreateStep::CheckMemory),
        outcomes,
    )
}

/// What was done where a creation stands.
spec fn creation_history(plan: CreatePlan, run: Run<CreateStep, bool>) -> bool {
    let at = create_place(run.step);
    let never = plan.policy == ImagePullPolicy::Never;
    &&& at > 0 ==> run.done(CreateStep::CheckMemory)
    &&& at == 1 ==> never || plan.prefer_cache
    &&& 0 <= at <= 1 ==> !run.tried(CreateStep::InspectLocal) && !run.tried(CreateStep::Pull)
    &&& at > 1 ==> (run.tried(CreateStep::InspectLocal) <==> never || plan.prefer_cache)
    &&& run.tried(CreateStep::InspectLocal) ==> never || plan.prefer_cache
    &&& run.tried(CreateStep::Pull) || run.step is Pull ==> !never && !run.done(
        CreateStep::InspectLocal,
    )
    &&& run.tried(CreateStep::InspectPulled) || run.step is InspectPulled ==> run.done(
        CreateStep::Pull,
    )
    &&& at > 3 ==> run.done(CreateStep::InspectLocal) || run.done(CreateStep::InspectPulled)
    &&& at == 4 ==> !plan.host_network
    &&& run.tried(CreateStep::EnsureNetwork) ==> !plan.host_network
    &&& at > 4 ==> plan.host_network || run.done(CreateStep::EnsureNetwork)
    &&& run.step matches CreateStep::Mount(i) ==> i < plan.mounts && forall|j: usize|
        j < i ==> #[trigger] run.done(CreateStep::Mount(j))
    &&& at > 5 ==> forall|j: usize| j < plan.mounts ==> #[trigger] run.done(CreateStep::Mount(j))
    &&& forall|j: usize| #[trigger] run.tried(CreateStep::Mount(j)) ==> j < plan.mounts
    &&& at > 6 ==> run.done(CreateStep::Create)
    &&& 0 <= at <= 6 ==> !run.tried(CreateStep::Create)
    &&& at == 7 ==> !plan.host_network
    &&& run.tried(CreateStep::Connect) ==> !plan.host_network
    &&& at > 7 ==> plan.host_network || run.done(CreateStep::Connect)
    &&& at > 8 ==> run.done(CreateStep::Start)
    &&& at >= 0 ==> forall|s: CreateStep| #[trigger] run.failed(s) ==> s is InspectLocal && !never
    &&& at == 0 ==> forall|s: CreateStep| !#[trigger] run.failed(s)
    &&& at >= 0 || run.step is Undo ==> !run.tried(CreateStep::Undo)
    &&& run.step is Undo ==> run.done(CreateStep::Create)
    &&& run.tried(CreateStep::Undo) ==> run.done(CreateStep::Create)
    &&& run.step is Failed && run.done(CreateStep::Create) ==> run.tried(CreateStep::Undo)
    &&& run.step is Undo || run.step is Failed ==> exists|s: CreateStep| #[trigger]
        run.failed(s) && !(s is Undo) && (s is InspectLocal ==> never)
}

/// A step keeps the history.
proof fn lemma_creation_history(plan: CreatePlan, r: Run<CreateStep, bool>, o: bool, after: Run<CreateStep, bool>)
    requires
        creation_history(plan, r),
        !creation_is_over(r.step),
        after.step == create_next(plan, r.step, o),
        after.seen == r.seen.insert((r.step, o)),
    ensures
        creation_history(plan, after),
{
    assert(forall|s: CreateStep| #[trigger] after.done(s) <==> r.done(s) || (s == r.step && o));
    assert(forall|s: CreateStep| #[trigger] after.failed(s) <==> r.failed(s) || (s == r.step && !o));
    assert(forall|s: CreateStep| #[trigger] after.tried(s) <==> r.tried(s) || s == r.step);
    if r.step is Undo {
        let s = choose|s: CreateStep| #[trigger]
            r.failed(s) && !(s is Undo) && (s is InspectLocal ==> plan.policy
                == ImagePullPolicy::Never);
        assert(after.failed(s));
    } else {
        assert(!o ==> after.failed(r.step));
    }
}

/// However its steps turn out, a creation that is reported as finished has found
/// the memory, has the image, from the cache or from a pull, has the network
/// unless it is the host's, has provided every volume, and has made, connected
/// and started the container; no step but the look into the cache has failed.
/// The cache is asked where the plan says so, and an image that is found there is
/// not pulled. Unless pulling is forbidden, an image that is not in the cache is
/// never the reason of a failure: it is pulled. A container that was made by a
/// creation that fails is removed. A creation whose steps all succeed, but for
/// the look into the cache, is finished.
pub proof fn law_finished_means_created(plan: CreatePlan, outcomes: Seq<bool>)
    ensures
        ({
            let run = creation_run(plan, outcomes);
            let never = plan.policy == ImagePullPolicy::Never;
            &&& create_next(plan, CreateStep::InspectLocal, false) == if never {
                CreateStep::Failed
            } else {
                CreateStep::Pull
            }
            &&& create_place(run.step) > 0 ==> run.done(CreateStep::CheckMemory)
            &&& create_place(run.step) > 1 ==> (run.tried(CreateStep::InspectLocal) <==> never
                || plan.prefer_cache)
            &&& run.tried(CreateStep::Pull) ==> !never && !run.done(CreateStep::InspectLocal)
            &&& run.tried(CreateStep::InspectPulled) ==> run.done(CreateStep::Pull)
            &&& create_place(run.step) > 3 ==> run.done(CreateStep::InspectLocal) || run.done(
                CreateStep::InspectPulled,
            )
            &&& create_place(run.step) > 4 ==> (run.done(CreateStep::EnsureNetwork)
                <==> !plan.host_network)
            &&& create_place(run.step) > 5 ==> forall|i: usize|
                i < plan.mounts ==> #[trigger] run.done(CreateStep::Mount(i))
            &&& forall|i: usize| #[trigger] run.tried(CreateStep::Mount(i)) ==> i < plan.mounts
            &&& create_place(run.step) > 6 ==> run.done(CreateStep::Create)
            &&& run.step is Start || run.step is Finished ==> (run.done(CreateStep::Connect)
                <==> !plan.host_network)
            &&& run.step is Finished ==> run.done(CreateStep::Start)
            &&& run.step is Finished ==> forall|s: CreateStep| #[trigger]
                run.failed(s) ==> s is InspectLocal && !never
            &&& run.step is Failed ==> exists|s: CreateStep| #[trigger]
                run.failed(s) && !(s is Undo) && (s is InspectLocal ==> never)
            &&& run.step is Failed ==> (run.tried(CreateStep::Undo) <==> run.done(
                CreateStep::Create,
            ))
            &&& outcomes.len() >= plan.mounts + 9 && (forall|s: CreateStep| #[trigger]
                run.failed(s) ==> s is InspectLocal && !never) ==> run.step is Finished
        }),
{
    let next = |step: CreateStep, o: bool| create_next(plan, step, o);
    let over = |step: CreateStep| creation_is_over(step);
    let inv = |run: Run<CreateStep, bool>| creation_history(plan, run);
    let first = fresh::<CreateStep, bool>(CreateStep::CheckMemory);
    assert forall|r: Run<CreateStep, bool>, o: bool| inv(r) && !over(r.step) implies inv(
        #[trigger] advanced(next, r, o),
    ) by {
        lemma_creation_history(plan, r, o, advanced(next, r, o));
    }
    lemma_run_keeps(next, over, inv, first, outcomes);
    if outcomes.len() >= plan.mounts + 9 {
        let rank = |step: CreateStep| create_rank(plan, step);
        assert forall|s: CreateStep, o: bool| !over(s) implies 0 <= rank(#[trigger] next(s, o))
            < rank(s) by {
            law_creation_ends(plan, s, o);
        }
        lemma_run_ends(next, over, rank, first, outcomes);
    }
}

/// A container has a user exactly where the deployment names one by its number,
/// alone or with the group; it is privileged exactly where the deployment says
/// so.
pub proof fn law_user_is_named_by_number(
    config: &Option<DeploymentConfig>,
    user: Option<String>,
    rights: Option<bool>,
)
    requires
        call_ensures(build_user_config, (config,), user),
        call_ensures(get_privileged_config, (config,), rights),
    ensures
        user is Some <==> (*config matches Some(c) && c.user matches Some(u) && u.id is Some),
        *config matches Some(c) ==> c.user matches Some(u) ==> u.id matches Some(n) ==> (u.group
            is None ==> opt_str(user) == Some(decimal(n as nat))),
        *config matches Some(c) ==> c.user matches Some(u) ==> u.id matches Some(n)
            ==> u.group matches Some(g) ==> opt_str(user) == Some(
            decimal(n as nat).push(':') + decimal(g as nat),
        ),
        rights == Some(true) <==> (*config matches Some(c) && c.user matches Some(u)
            && u.privileged == Some(true)),
        *config matches Some(c) ==> c.user matches Some(u) ==> rights == u.privileged,
        *config is None ==> rights is None,
{
    reveal_strlit(":");
    if let Some(c) = *config {
        if let Some(u) = c.user {
            if u.id is Some && u.group is Some {
                let n = u.id->0;
                let g = u.group->0;
                assert(decimal(n as nat) + ":"@ + decimal(g as nat) =~= decimal(n as nat).push(':')
                    + decimal(g as nat));
            }
        }
    }
}

/// Where the daemon lists an entry of the requested repository its digest is the
/// one that is recorded, whatever stands before it: `at` is the first such
/// entry.
pub proof fn law_own_digest_is_recorded(
    entries: Vec<String>,
    repo: &str,
    at: int,
    digest: Seq<char>,
    r: Option<String>,
)
    requires
        0 <= at < entries@.len(),
        !repo@.contains('@'),
        entries@[at]@ == repo@ + seq!['@'] + digest,
        forall|j: int|
            0 <= j < at ==> !(repo@ + seq!['@']).is_prefix_of((#[trigger] entries@[j])@),
        call_ensures(extract_digest, (&Some(entries), repo), r),
    ensures
        opt_str(r) == Some(digest),
{
    let list = strs(entries@);
    assert forall|j: int| 0 <= j < at implies !entry_matches(#[trigger] list[j], repo@) by {
        let e = list[j];
        assert(e == entries@[j]@);
        lemma_first_pos(e, '@');
        if entry_matches(e, repo@) {
            assert(e.subrange(0, repo@.len() as int + 1) =~= repo@ + seq!['@']);
        }
    }
    let own = list[at];
    assert(own == entries@[at]@);
    assert(own[repo@.len() as int] == '@');
    assert forall|j: int| 0 <= j < repo@.len() implies own[j] != '@' by {
        assert(own[j] == repo@[j]);
        assert(repo@.contains(repo@[j]));
    }
    lemma_first_pos_unique(own, '@', repo@.len() as int);
    assert(own.take(repo@.len() as int) =~= repo@);
    assert(own.skip(repo@.len() as int + 1) =~= digest);
    lemma_matching_digest(list, repo@, at);
}

/// The first entry of a repository is the one whose digest is found.
proof fn lemma_matching_digest(entries: Seq<Seq<char>>, repo: Seq<char>, at: int)
    requires
        0 <= at <= entries.len(),
        forall|j: int| 0 <= j < at ==> !entry_matches(#[trigger] entries[j], repo),
    ensures
        at < entries.len() && entry_matches(entries[at], repo) ==> matching_digest(entries, repo)
            == entry_digest(entries[at]),
        at == entries.len() ==> matching_digest(entries, repo) is None,
    decreases entries.len(),
{
    if at > 0 {
        assert(!entry_matches(entries[0], repo));
        let rest = entries.skip(1);
        assert forall|j: int| 0 <= j < at - 1 implies !entry_matches(#[trigger] rest[j], repo) by {
            assert(rest[j] == entries[j + 1]);
        }
        lemma_matching_digest(rest, repo, at - 1);
    }
}

/// Where no entry is of the requested repository the first one that has a digest
/// is recorded, and none exactly where no entry has one.
pub proof fn law_any_digest_is_better_than_none(
    entries: Vec<String>,
    repo: &str,
    at: int,
    r: Option<String>,
    unlisted: Option<String>,
)
    requires
        forall|j: int|
            0 <= j < entries@.len() ==> !(repo@ + seq!['@']).is_prefix_of(
                (#[trigger] entries@[j])@,
            ),
        0 <= at <= entries@.len(),
        forall|j: int| 0 <= j < at ==> !(#[trigger] entries@[j])@.contains('@'),
        at < entries@.len() ==> entries@[at]@.contains('@'),
        call_ensures(extract_digest, (&Some(entries), repo), r),
        call_ensures(extract_digest, (&None, repo), unlisted),
    ensures
        unlisted is None,
        r is Some <==> at < entries@.len(),
        r matches Some(digest) ==> digest@.is_suffix_of(entries@[at]@) && digest@.len()
            < entries@[at]@.len() && entries@[at]@[entries@[at]@.len() - digest@.len() - 1] == '@'
            && !entries@[at]@.take(entries@[at]@.len() - digest@.len() - 1).contains('@'),
{
    let list = strs(entries@);
    assert forall|j: int| 0 <= j < list.len() implies !entry_matches(#[trigger] list[j], repo@) by {
        let e = list[j];
        assert(e == entries@[j]@);
        lemma_first_pos(e, '@');
        if entry_matches(e, repo@) {
            assert(e.subrange(0, repo@.len() as int + 1) =~= repo@ + seq!['@']);
        }
    }
    lemma_matching_digest(list, repo@, list.len() as int);
    assert forall|j: int| 0 <= j < at implies entry_digest(#[trigger] list[j]) is None by {
        let e = list[j];
        assert(e == entries@[j]@);
        lemma_first_pos(e, '@');
        if first_pos(e, '@') < e.len() {
            assert(e.contains(e[first_pos(e, '@')]));
        }
    }
    lemma_first_digest(list, at);
    if at < entries@.len() {
        let e = list[at];
        assert(e == entries@[at]@);
        lemma_first_pos(e, '@');
        let p = first_pos(e, '@');
        let k = choose|k: int| 0 <= k < e.len() && e[k] == '@';
        assert(p <= k);
        let d = e.skip(p + 1);
        assert(e.subrange(e.len() - d.len(), e.len() as int) =~= d);
        let head = e.take(p);
        if head.contains('@') {
            let j = choose|j: int| 0 <= j < head.len() && head[j] == '@';
            assert(e[j] == '@');
        }
    }
}

/// The first entry with a digest is the one whose digest is found.
proof fn lemma_first_digest(entries: Seq<Seq<char>>, at: int)
    requires
        0 <= at <= entries.len(),
        forall|j: int| 0 <= j < at ==> entry_digest(#[trigger] entries[j]) is None,
    ensures
        at < entries.len() && entry_digest(entries[at]) is Some ==> first_digest(entries)
            == entry_digest(entries[at]),
        at == entries.len() ==> first_digest(entries) is None,
    decreases entries.len(),
{
    if at > 0 {
        assert(entry_digest(entries[0]) is None);
        let rest = entries.skip(1);
        assert forall|j: int| 0 <= j < at - 1 implies entry_digest(#[trigger] rest[j]) is None by {
            assert(rest[j] == entries[j + 1]);
        }
        lemma_first_digest(rest, at - 1);
    }
}

/// The container's own health check is the first readiness check that runs a
/// command, at place `at`, with that check's command and threshold; there is
/// none exactly where no readiness check runs a command.
pub proof fn law_first_command_readiness_is_translated(
    checks: &Vec<HealthCheck>,
    at: int,
    r: Option<HealthConfig>,
)
    requires
        0 <= at <= checks@.len(),
        forall|j: int|
            0 <= j < at ==> !(#[trigger] checks@[j] is Command && checks@[j]->Command_readiness),
        at < checks@.len() ==> checks@[at] is Command && checks@[at]->Command_readiness,
        call_ensures(build_health_config, (checks,), r),
    ensures
        r is Some <==> at < checks@.len(),
        r matches Some(config) ==> {
            &&& config.test matches Some(test) && test@.len() == 2 && test@[0]@ == "CMD-SHELL"@
                && test@[1]@ == checks@[at]->Command_command@
            &&& config.retries == Some(checks@[at]->Command_threshold as i64)
            &&& forall|t: &str, nanos: Option<i64>|
                t@ == checks@[at]->Command_interval@ && #[trigger] call_ensures(
                    parse_duration,
                    (t,),
                    nanos,
                ) ==> config.interval == Some(
                    match nanos {
                        Some(v) => v,
                        None => 0i64,
                    },
                )
            &&& forall|t: &str, nanos: Option<i64>|
                t@ == checks@[at]->Command_timeout@ && #[trigger] call_ensures(
                    parse_duration,
                    (t,),
                    nanos,
                ) ==> config.timeout == Some(
                    match nanos {
                        Some(v) => v,
                        None => 0i64,
                    },
                )
        },
{
    lemma_first_readiness(checks@, at);
    if let Some(config) = r {
        let test = config.test->0;
        assert(strs(test@).len() == test@.len());
        assert(strs(test@)[0] == test@[0]@ && strs(test@)[1] == test@[1]@);
    }
}

/// The first readiness check that runs a command is the one that is found.
proof fn lemma_first_readiness(checks: Seq<HealthCheck>, at: int)
    requires
        0 <= at <= checks.len(),
        forall|j: int|
            0 <= j < at ==> !(#[trigger] checks[j] is Command && checks[j]->Command_readiness),
        at < checks.len() ==> checks[at] is Command && checks[at]->Command_readiness,
    ensures
        first_command_readiness(checks) == if at < checks.len() {
            Some(checks[at])
        } else {
            None
        },
    decreases checks.len(),
{
    if at > 0 {
        let rest = checks.skip(1);
        assert(!(checks[0] is Command && checks[0].readiness()));
        assert forall|j: int| 0 <= j < at - 1 implies !(#[trigger] rest[j] is Command
            && rest[j]->Command_readiness) by {
            assert(rest[j] == checks[j + 1]);
        }
        lemma_first_readiness(rest, at - 1);
    }
}

/// A registry is asked although the image may be in the cache exactly where
/// there are credentials, the policy does not settle for the cache and the
/// reference may move.
pub proof fn law_cache_is_passed_over(
    policy: ImagePullPolicy,
    reference: &ImageReference,
    has_auth: bool,
    r: bool,
)
    requires
        call_ensures(prefer_local_cache, (policy, reference, has_auth), r),
    ensures
        !r <==> has_auth && *reference is Tag && (policy == ImagePullPolicy::Always || policy
            == ImagePullPolicy::Never),
{
}

/// The error of a failed pull always carries the daemon's text. It is that of a
/// missing image exactly where the text says so, even where it says other things
/// too; a refusal and an unreachable registry name the image.
pub proof fn law_pull_error_is_explained(lower: &str, msg: &str, image: &str, r: RuntimeError)
    requires
        call_ensures(classify_pull_text, (lower, msg, image), r),
    ensures
        ({
            let missing = contains(lower@, "404"@) || contains(lower@, "not found"@) || contains(
                lower@,
                "manifest unknown"@,
            );
            let refused = contains(lower@, "unauthorized"@) || contains(
                lower@,
                "authentication required"@,
            ) || contains(lower@, "denied"@) || contains(lower@, "forbidden"@);
            let unreachable = contains(lower@, "connection refused"@) || contains(
                lower@,
                "no such host"@,
            ) || contains(lower@, "dial tcp"@) || contains(lower@, "timeout"@) || contains(
                lower@,
                "connection reset"@,
            );
            &&& missing ==> r@ == RuntimeErrorView::ImageNotFound(msg@)
            &&& !missing ==> r is ImagePullFailed
            &&& !missing && refused ==> ("registry authentication failed for '"@
                + image@).is_prefix_of(r@->ImagePullFailed_0)
            &&& !missing && !refused && unreachable ==> ("cannot reach the registry for '"@
                + image@).is_prefix_of(r@->ImagePullFailed_0)
            &&& !missing && (refused || unreachable) ==> (msg@ + ")"@).is_suffix_of(
                r@->ImagePullFailed_0,
            )
            &&& !missing && !refused && !unreachable && !contains(lower@, "i/o timeout"@) ==> r@
                == RuntimeErrorView::ImagePullFailed(msg@)
        }),
{
    if r is ImagePullFailed {
        let a = "registry authentication failed for '"@ + image@;
        let b = "cannot reach the registry for '"@ + image@;
        let tail = msg@ + ")"@;
        let mid_a = "' — check config.server, config.username and config.password (original error: "@;
        let mid_b = "' — is it up and the registry host correct? (original error: "@;
        let full_a = a + mid_a + msg@ + ")"@;
        let full_b = b + mid_b + msg@ + ")"@;
        assert(full_a.subrange(0, a.len() as int) =~= a);
        assert(full_b.subrange(0, b.len() as int) =~= b);
        assert(full_a.subrange(full_a.len() - tail.len(), full_a.len() as int) =~= tail);
        assert(full_b.subrange(full_b.len() - tail.len(), full_b.len() as int) =~= tail);
    }
}

/// Credentials are used exactly where server, user name and password are all
/// given, each as it is given.
pub proof fn law_credentials_come_whole(
    config: &Option<DeploymentConfig>,
    r: Option<(String, String, String)>,
)
    requires
        call_ensures(registry_credentials, (config,), r),
    ensures
        r is Some <==> (*config matches Some(c) && c.server is Some && c.username is Some
            && c.password is Some),
        r matches Some(t) ==> *config matches Some(c) && t.0@ == c.server->0@ && t.1@
            == c.username->0@ && t.2@ == c.password->0@,
{
}

/// A mount is made where the volume asks for it, and can be written to exactly
/// where a volume of the host or one by name is not declared read-only; a
/// rendered file never can. What is bound is an absolute path or a rendered
/// file; everything else is a volume by name.
pub proof fn law_mount_follows_its_volume(
    volume: &ResolvedMount,
    deployment_id: &str,
    hash: u64,
    r: ContainerMount,
)
    requires
        call_ensures(mount_with_hash, (volume, deployment_id, hash), r),
    ensures
        *volume matches ResolvedMount::Bind { source, destination, read_only } ==> {
            &&& r.target@ == destination@
            &&& r.source@ == source@
            &&& r.read_only == read_only
            &&& r.driver is None
            &&& r.kind == MountKind::Bind <==> source@.len() > 0 && source@[0] == '/'
        },
        *volume matches ResolvedMount::Named { name, destination, read_only, driver } ==> {
            &&& r.target@ == destination@
            &&& r.source@ == name@
            &&& r.read_only == read_only
            &&& r.kind == MountKind::Volume
            &&& r.driver is Some <==> driver@.len() > 0 && driver@ != "local"@
            &&& r.driver matches Some(d) ==> d@ == driver@
        },
        *volume matches ResolvedMount::Content { content, destination } ==> {
            &&& r.target@ == destination@
            &&& r.read_only
            &&& r.kind == MountKind::Bind
            &&& r.driver is None
            &&& hexadecimal(hash as nat).is_suffix_of(r.source@)
        },
{
    reveal_strlit("/");
    match *volume {
        ResolvedMount::Bind { source, destination, read_only } => {
            if source@.len() > 0 {
                assert(source@.subrange(0, 1) =~= seq![source@[0]]);
                assert("/"@ =~= seq!['/']);
                assert(seq![source@[0]][0] == source@[0]);
                assert(seq!['/'][0] == '/');
            }
        },
        ResolvedMount::Content { content, destination } => {
            let name = hexadecimal(hash as nat);
            assert(r.source@.subrange(r.source@.len() - name.len(), r.source@.len() as int)
                =~= name);
        },
        _ => {},
    }
}

/// A volume that is asked for by name keeps its name, has the daemon's own
/// driver exactly where none is given, and says whose it is.
pub proof fn law_named_volume_is_marked(
    name: &str,
    driver: &str,
    namespace: &str,
    deployment_name: &str,
    r: VolumeRequest,
)
    requires
        call_ensures(named_volume_request, (name, driver, namespace, deployment_name), r),
    ensures
        r.name@ == name@,
        driver@.len() > 0 ==> r.driver@ == driver@,
        driver@.len() == 0 ==> r.driver@ == "local"@,
        str_pairs(r.labels@).contains(("ring.namespace"@, namespace@)),
        str_pairs(r.labels@).contains(("ring.deployment"@, deployment_name@)),
{
    assert(str_pairs(r.labels@)[1] == ("ring.namespace"@, namespace@));
    assert(str_pairs(r.labels@)[2] == ("ring.deployment"@, deployment_name@));
}

/// Ports are published one by one: a further port gives its container port its
/// own address on the host, and leaves every other one as it was. It is
/// published on every interface where no address is given.
pub proof fn law_ports_are_published_one_by_one(
    ports: &Vec<Port>,
    more: &Vec<Port>,
    last: Port,
    before: Vec<(String, PortBinding)>,
    after: Vec<(String, PortBinding)>,
)
    requires
        more@ == ports@.push(last),
        call_ensures(port_bindings, (ports,), before),
        call_ensures(port_bindings, (more,), after),
    ensures
        ports@.len() == 0 ==> before@.len() == 0,
        ({
            let key = decimal(last.target as nat) + "/"@ + if last.protocol == Protocol::Udp {
                "udp"@
            } else {
                "tcp"@
            };
            &&& entry_map(after@).dom() == entry_map(before@).dom().insert(key)
            &&& entry_map(after@)[key].host_port == decimal(last.published as nat)
            &&& last.host_ip matches Some(ip) ==> entry_map(after@)[key].host_ip == ip@
            &&& last.host_ip is None ==> entry_map(after@)[key].host_ip == "0.0.0.0"@
            &&& forall|other: Seq<char>|
                other != key && #[trigger] entry_map(before@).dom().contains(other) ==> entry_map(
                    after@,
                )[other] == entry_map(before@)[other]
        }),
{
    assert(more@.drop_last() =~= ports@);
    assert(more@.last() == last);
}

/// A container is created with what its deployment declares: image, command and
/// the limits on CPU and memory, the requested memory as a reservation, the
/// host's network exactly where it is asked for, and every published port
/// exposed.
pub proof fn law_container_is_created_as_declared(
    deployment: &Deployment,
    mounts: Vec<ContainerMount>,
    r: ContainerBody,
    user: Option<String>,
    rights: Option<bool>,
    resources: Resource,
    cpu: Option<i64>,
    limit: Option<i64>,
    request: Option<i64>,
)
    requires
        call_ensures(container_body, (deployment, mounts), r),
        call_ensures(build_user_config, (&deployment.config,), user),
        call_ensures(get_privileged_config, (&deployment.config,), rights),
        deployment.resources matches Some(declared) ==> declared == resources,
        call_ensures(declared_cpu, (&resources.limits,), cpu),
        call_ensures(declared_memory, (&resources.limits,), limit),
        call_ensures(declared_memory, (&resources.requests,), request),
    ensures
        r.image@ == deployment.image@,
        r.cmd@ == deployment.command@,
        r.mounts == mounts,
        opt_str(r.user) == opt_str(user),
        r.privileged == rights,
        deployment.resources is Some ==> r.nano_cpus == cpu && r.memory == limit
            && r.memory_reservation == request,
        deployment.resources is None ==> r.nano_cpus is None && r.memory is None
            && r.memory_reservation is None,
        opt_str(r.network_mode) == Some("host"@) <==> (deployment.network matches Some(n) && n.mode
            == NetworkMode::Host),
        r.network_mode is Some <==> (deployment.network matches Some(n) && n.mode
            == NetworkMode::Host),
        r.port_bindings is Some <==> deployment.ports@.len() > 0,
        r.exposed_ports is Some <==> deployment.ports@.len() > 0,
        r.port_bindings matches Some(bindings) ==> r.exposed_ports matches Some(exposed)
            && exposed@.len() == bindings@.len() && forall|i: int|
            0 <= i < exposed@.len() ==> (#[trigger] exposed@[i])@ == bindings@[i].0@,
{
    if let Some(bindings) = r.port_bindings {
        let exposed = r.exposed_ports->0;
        assert(strs(exposed@).len() == exposed@.len());
        assert(names(bindings@).len() == bindings@.len());
        assert forall|i: int| 0 <= i < exposed@.len() implies (#[trigger] exposed@[i])@
            == bindings@[i].0@ by {
            assert(strs(exposed@)[i] == exposed@[i]@);
            assert(names(bindings@)[i] == bindings@[i].0@);
        }
    }
}

/// The plan of a creation follows the deployment: the policy as it is written,
/// and a pull without a look into the cache exactly where there are credentials,
/// the image is named by a tag and the policy asks for it.
pub proof fn law_creation_is_planned_as_declared(
    deployment: &Deployment,
    mounts: usize,
    r: CreatePlan,
    text: &str,
    image: (String, ImageReference),
)
    requires
        call_ensures(plan_creation, (deployment, mounts), r),
        text@ == deployment.image@,
        call_ensures(parse_image_reference, (text,), image),
    ensures
        r.mounts == mounts,
        r.host_network <==> (deployment.network matches Some(n) && n.mode == NetworkMode::Host),
        deployment.config is None ==> r.policy == ImagePullPolicy::Always && r.prefer_cache,
        r.policy == ImagePullPolicy::Never <==> (deployment.config matches Some(c)
            && ascii_lowered(c.image_pull_policy@) == "never"@),
        r.policy == ImagePullPolicy::IfNotPresent <==> (deployment.config matches Some(c)
            && ascii_lowered(c.image_pull_policy@) == "ifnotpresent"@),
        !r.prefer_cache <==> (deployment.config matches Some(c) && c.server is Some
            && c.username is Some && c.password is Some) && image.1 is Tag && r.policy
            != ImagePullPolicy::IfNotPresent,
{
    reveal_strlit("never");
    reveal_strlit("ifnotpresent");
    assert("never"@.len() != "ifnotpresent"@.len());
}

/// The digest that is recorded is the one that was picked, and a container that
/// was recorded and forgotten again leaves the deployment's instances as they
/// were. Neither touches the status or the restarts.
pub proof fn law_recording_is_undone_by_forgetting(
    inspected: &mut Deployment,
    repo_digests: &Option<Vec<String>>,
    repo: &str,
    picked: Option<String>,
    created: &mut Deployment,
    container_id: &str,
    removed: &mut Deployment,
)
    requires
        call_ensures(extract_digest, (repo_digests, repo), picked),
        call_ensures(record_image, (inspected, repo_digests, repo), ()),
        call_ensures(record_created, (created, container_id), ()),
        *old(removed) == *final(created),
        call_ensures(forget_created, (removed,), ()),
    ensures
        opt_str(final(inspected).image_digest) == opt_str(picked),
        final(inspected).instances@ == old(inspected).instances@,
        final(inspected).status == old(inspected).status,
        final(created).instances@.len() == old(created).instances@.len() + 1,
        final(created).instances@.last()@ == container_id@,
        final(created).status == old(created).status,
        final(created).restart_count == old(created).restart_count,
        final(removed).instances@ == old(created).instances@,
        final(removed).status == old(created).status,
        final(removed).restart_count == old(created).restart_count,
{
    let after = final(created).instances@;
    assert(strs(after).len() == after.len());
    assert(strs(after).last() == after.last()@);
    assert(strs(old(created).instances@).len() == old(created).instances@.len());
}

/// A rendered content is kept in a file that its hash names, in the directory of its
/// deployment, and mounted from there; a volume that holds no content does not
/// depend on any hash.
pub proof fn law_content_is_kept_under_its_hash(
    volume: &ResolvedMount,
    deployment_id: &str,
    hash: u64,
    with_hash: ContainerMount,
    file: String,
    r: ContainerMount,
)
    requires
        *volume matches ResolvedMount::Content { content, destination } ==> hash == default_hash(
            content@,
        ),
        call_ensures(mount_with_hash, (volume, deployment_id, hash), with_hash),
        call_ensures(scratch_file, (deployment_id, hash), file),
        call_ensures(create_mount_from_resolved, (volume, deployment_id), r),
    ensures
        r@ == with_hash@,
        *volume is Content ==> r.source@ == file@,
        file@ == "/tmp/ring_configs/"@ + deployment_id@ + "/"@ + hexadecimal(hash as nat),
{
    assert(r@.source == r.source@);
}

/// What a deployment asks for is read from it: the image that its text names, with
/// the credentials that are given whole; the policy that it writes, and `Always`
/// where it writes none; the host's network exactly where it says so.
pub proof fn law_request_is_read_from_the_deployment(
    d: &Deployment,
    image: &str,
    parts: (String, ImageReference),
    credentials_read: Option<(String, String, String)>,
    text: &str,
    written: ImagePullPolicy,
    r: DockerImage,
    policy: ImagePullPolicy,
    on_host: bool,
)
    requires
        image@ == d.image@,
        d.config matches Some(c) ==> c.image_pull_policy@ == text@,
        call_ensures(parse_image_reference, (image,), parts),
        call_ensures(registry_credentials, (&d.config,), credentials_read),
        call_ensures(ImagePullPolicy::parse, (text,), written),
        call_ensures(requested_image, (d,), r),
        call_ensures(requested_policy, (&d.config,), policy),
        call_ensures(uses_host_network, (d,), on_host),
    ensures
        r.name@ == parts.0@,
        r.reference@ == parts.1@,
        opt_triple(r.auth) == opt_triple(credentials_read),
        d.config is Some ==> policy == written,
        d.config is None ==> policy == ImagePullPolicy::Always,
        on_host <==> (d.network matches Some(n) && n.mode == NetworkMode::Host),
{
}

/// A container is named after its namespace, its deployment and its suffix, joins
/// the network of its namespace, and is known there by its deployment's name and its
/// own. The ports that are bound are exposed, one for one, and none where none is
/// bound.
pub proof fn law_container_is_known_by_its_names(
    d: &Deployment,
    suffix: &str,
    namespace: &str,
    own: &str,
    name: String,
    network: String,
    aliases: Vec<String>,
    bindings: &Vec<(String, PortBinding)>,
    exposed: Option<Vec<String>>,
)
    requires
        call_ensures(instance_name, (d, suffix), name),
        call_ensures(network_name, (namespace,), network),
        call_ensures(network_aliases, (d, own), aliases),
        call_ensures(exposed_ports, (bindings,), exposed),
    ensures
        name@ == d.namespace@ + "_"@ + d.name@ + "_"@ + suffix@,
        network@ == "ring_"@ + namespace@,
        strs(aliases@).contains(d.name@) && strs(aliases@).contains(own@),
        exposed is None <==> bindings@.len() == 0,
        exposed matches Some(list) ==> list@.len() == bindings@.len() && forall|i: int|
            0 <= i < list@.len() ==> (#[trigger] list@[i])@ == bindings@[i].0@,
{
    let a = strs(aliases@);
    assert(a[0] == d.name@ && a[1] == own@);
    if let Some(list) = exposed {
        let e = strs(list@);
        assert(e.len() == list@.len());
        assert forall|i: int| 0 <= i < list@.len() implies (#[trigger] list@[i])@
            == bindings@[i].0@ by {
            assert(e[i] == list@[i]@);
        }
    }
}

/// A creation that is finished stays finished, one that failed stays failed, and one
/// that is undone has failed, whatever is reported then.
pub proof fn law_end_of_a_creation_is_final(plan: CreatePlan, step: CreateStep, ok: bool, r: CreateStep)
    requires
        call_ensures(next_create_step, (plan, step, ok), r),
    ensures
        step is Finished ==> r is Finished,
        step is Failed || step is Undo ==> r is Failed,
        r is Finished ==> step is Finished || (step is Start && ok),
{
}

} // verus!
