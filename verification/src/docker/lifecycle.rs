//! Reconciliation of container deployments: what one tick does with a worker
//! or a job. The functions here take the deployment and what the daemon
//! answered, change the deployment, and say what is to be done next.
use vstd::prelude::*;
use crate::classifier::{Disposition, classify_create_error, classify_exit_code, create_disposition, exit_disposition};
use crate::docker::container::without_last;
use crate::docker::instances::{ContainerSummary, listed_id, listed_ids, owner_of};
use crate::error::{RuntimeError, RuntimeErrorView};
use crate::models::{Deployment, DeploymentStatus, EventView, InstanceStatus, MAX_RESTART_COUNT, event};
use crate::text::{byte_prefix, cat2, cat3, cat4, cat5, cat7, contains, cuts_cleanly, decimal, decimal_i64, decimal_u64, first_bytes, occurs_at, same, signed_decimal, strs};

verus! {

/// How long a container that was just started is left alone before it is
/// inspected, in milliseconds: an entrypoint that exits at once is still
/// reported as running for a moment.
pub const LIVENESS_SETTLE_MILLIS: u64 = 750;

// ---------------------------------------------------------------------------
// Crash counting
// ---------------------------------------------------------------------------

/// An exit code as it is shown to the operator.
pub open spec fn exit_code_text(code: Option<i64>) -> Seq<char> {
    match code {
        Some(n) => "Some("@ + signed_decimal(n as int) + ")"@,
        None => "None"@,
    }
}

/// The first of the exits that cannot be retried; the number of exits where
/// there is none.
pub open spec fn first_terminal(exited: Seq<(String, Option<i64>)>) -> int
    decreases exited.len(),
{
    if exited.len() == 0 || exit_disposition(exited[0].1) is Terminal {
        0
    } else {
        1 + first_terminal(exited.skip(1))
    }
}

/// How many of the exits are counted: those up to the first that cannot be
/// retried.
pub open spec fn counted_exits(exited: Seq<(String, Option<i64>)>) -> int {
    if first_terminal(exited) < exited.len() {
        first_terminal(exited) + 1
    } else {
        exited.len() as int
    }
}

/// The report of one unexpected exit.
pub open spec fn crash_event(id: Seq<char>, restarts: int) -> EventView {
    event(
        "error"@,
        "Container "@ + byte_prefix(id, 12) + " exited unexpectedly (restart "@ + decimal(
            restarts as nat,
        ) + ")"@,
        "docker"@,
        "container_crashed"@,
    )
}

/// The report of an exit that cannot be retried.
pub open spec fn fast_fail_event(id: Seq<char>, code: Option<i64>) -> EventView {
    event(
        "error"@,
        "Container "@ + byte_prefix(id, 12) + " exited with a non-retryable code ("@
            + exit_code_text(code) + "); failing fast"@,
        "docker"@,
        "non_retryable_exit"@,
    )
}

/// The reports of the exits of one tick, given the restart count before it.
pub open spec fn exit_events(exited: Seq<(String, Option<i64>)>, restarts: int) -> Seq<EventView> {
    let counted = Seq::new(
        counted_exits(exited) as nat,
        |i: int| crash_event(exited[i].0@, restarts + i + 1),
    );
    let t = first_terminal(exited);
    if t < exited.len() {
        counted.push(fast_fail_event(exited[t].0@, exited[t].1))
    } else {
        counted
    }
}

/// The status after the exits of one tick.
pub open spec fn status_after_exits(
    status: DeploymentStatus,
    exited: Seq<(String, Option<i64>)>,
    restarts: int,
) -> DeploymentStatus {
    let t = first_terminal(exited);
    if t < exited.len() {
        exit_disposition(exited[t].1)->Terminal_0
    } else if restarts + exited.len() >= MAX_RESTART_COUNT {
        DeploymentStatus::CrashLoopBackOff
    } else {
        status
    }
}

/// Whether the exits of one tick end the reconciliation.
pub open spec fn exits_stop(exited: Seq<(String, Option<i64>)>, restarts: int) -> bool {
    first_terminal(exited) < exited.len() || restarts + exited.len() >= MAX_RESTART_COUNT
}

/// Nothing before position `n` is terminal, so the first terminal exit is the
/// first one from there on.
proof fn lemma_first_terminal(exited: Seq<(String, Option<i64>)>, n: int)
    requires
        0 <= n <= exited.len(),
        forall|j: int| 0 <= j < n ==> exit_disposition((#[trigger] exited[j]).1) is Retryable,
    ensures
        first_terminal(exited) >= n,
        n < exited.len() && exit_disposition(exited[n].1) is Terminal ==> first_terminal(exited)
            == n,
        n == exited.len() ==> first_terminal(exited) == n,
    decreases exited.len(),
{
    if n == 0 {
        if exited.len() > 0 {
            lemma_first_terminal(exited.skip(1), 0);
        }
    } else {
        assert(exit_disposition(exited[0].1) is Retryable);
        let rest = exited.skip(1);
        assert forall|j: int| 0 <= j < n - 1 implies exit_disposition(
            (#[trigger] rest[j]).1,
        ) is Retryable by {
            assert(rest[j] == exited[j + 1]);
        }
        lemma_first_terminal(rest, n - 1);
    }
}

/// An exit code as it is shown to the operator.
fn show_exit_code(code: Option<i64>) -> (r: String)
    ensures
        r@ == exit_code_text(code),
{
    match code {
        Some(n) => cat3("Some(", decimal_i64(n).as_str(), ")"),
        None => "None".to_owned(),
    }
}

/// How many of the exits are counted.
pub fn count_exits(exited: &Vec<(String, Option<i64>)>) -> (r: usize)
    ensures
        r == counted_exits(exited@),
{
    let mut i: usize = 0;
    while i < exited.len()
        invariant
            i <= exited.len(),
            forall|j: int|
                0 <= j < i ==> exit_disposition((#[trigger] exited[j]).1) is Retryable,
        decreases exited.len() - i,
    {
        if classify_exit_code(exited[i].1).is_terminal() {
            proof {
                lemma_first_terminal(exited@, i as int);
            }
            return i + 1;
        }
        i += 1;
    }
    proof {
        lemma_first_terminal(exited@, exited.len() as int);
    }
    i
}

/// Count the containers that exited unexpectedly since the last tick. Each one
/// is reported and uses up a restart; one whose exit code cannot be retried
/// ends the deployment at once, and otherwise the deployment ends when the
/// restart budget is spent. Says whether reconciliation stops here.
pub fn apply_unexpected_exits(
    deployment: &mut Deployment,
    exited: &Vec<(String, Option<i64>)>,
) -> (r: bool)
    requires
        old(deployment).restart_count + counted_exits(exited@) <= u32::MAX,
        forall|i: int|
            0 <= i < counted_exits(exited@) ==> cuts_cleanly((#[trigger] exited[i]).0@, 12),
    ensures
        r == exits_stop(exited@, old(deployment).restart_count as int),
        final(deployment).restart_count == old(deployment).restart_count + counted_exits(exited@),
        final(deployment).status == status_after_exits(
            old(deployment).status,
            exited@,
            old(deployment).restart_count as int,
        ),
        final(deployment).log() == old(deployment).log() + exit_events(
            exited@,
            old(deployment).restart_count as int,
        ),
        *final(deployment) == (Deployment {
            status: final(deployment).status,
            restart_count: final(deployment).restart_count,
            pending_events: final(deployment).pending_events,
            ..*old(deployment)
        }),
{
    let ghost before = *deployment;
    let ghost base = deployment.restart_count as int;
    let ghost reports = |n: int| Seq::new(n as nat, |i: int| crash_event(exited[i].0@, base + i + 1));
    let mut i: usize = 0;
    assert(before.log() + reports(0) =~= before.log());
    while i < exited.len()
        invariant
            i <= exited.len(),
            before == *old(deployment),
            base == before.restart_count,
            base + counted_exits(exited@) <= u32::MAX,
            reports == (|n: int| Seq::new(
                n as nat,
                |i: int| crash_event(exited[i].0@, base + i + 1),
            )),
            forall|j: int|
                0 <= j < counted_exits(exited@) ==> cuts_cleanly((#[trigger] exited[j]).0@, 12),
            forall|j: int|
                0 <= j < i ==> exit_disposition((#[trigger] exited[j]).1) is Retryable,
            deployment.restart_count == base + i,
            deployment.log() == before.log() + reports(i as int),
            *deployment == (Deployment {
                restart_count: deployment.restart_count,
                pending_events: deployment.pending_events,
                ..before
            }),
        decreases exited.len() - i,
    {
        proof {
            lemma_first_terminal(exited@, i as int);
        }
        deployment.restart_count = deployment.restart_count + 1;
        assert(cuts_cleanly(exited[i as int].0@, 12));
        let short = first_bytes(exited[i].0.as_str(), 12);
        let count = decimal_u64(deployment.restart_count as u64);
        deployment.emit_event(
            "error",
            cat5("Container ", short.as_str(), " exited unexpectedly (restart ", count.as_str(), ")"),
            "docker",
            "container_crashed",
        );
        assert(deployment.log() =~= before.log() + reports(i + 1));
        if let Disposition::Terminal(status) = classify_exit_code(exited[i].1) {
            deployment.emit_event(
                "error",
                cat5(
                    "Container ",
                    short.as_str(),
                    " exited with a non-retryable code (",
                    show_exit_code(exited[i].1).as_str(),
                    "); failing fast",
                ),
                "docker",
                "non_retryable_exit",
            );
            deployment.status = status;
            assert(deployment.log() =~= before.log() + exit_events(exited@, base));
            return true;
        }
        i += 1;
    }
    proof {
        lemma_first_terminal(exited@, exited.len() as int);
        assert(deployment.log() =~= before.log() + exit_events(exited@, base));
    }
    if deployment.restart_count >= MAX_RESTART_COUNT {
        deployment.status = DeploymentStatus::CrashLoopBackOff;
        return true;
    }
    false
}

/// A container that has exited, as it was found.
#[derive(Debug)]
pub struct ExitedContainer {
    pub id: String,
    /// Whether the exit was asked for.
    pub intentional: bool,
    pub exit_code: Option<i64>,
}

/// The exits that were not asked for, in the order in which they were found.
pub open spec fn unexpected(seen: Seq<ExitedContainer>) -> Seq<(String, Option<i64>)>
    decreases seen.len(),
{
    if seen.len() == 0 {
        seq![]
    } else {
        let rest = unexpected(seen.drop_last());
        let last = seen.last();
        if last.intentional {
            rest
        } else {
            rest.push((last.id, last.exit_code))
        }
    }
}

/// The exits that were not asked for. All of the containers are removed; only
/// these count as crashes.
pub fn detect_crashes(seen: &Vec<ExitedContainer>) -> (r: Vec<(String, Option<i64>)>)
    ensures
        r@ == unexpected(seen@),
{
    let mut out: Vec<(String, Option<i64>)> = Vec::new();
    let mut i: usize = 0;
    while i < seen.len()
        invariant
            i <= seen.len(),
            out@ == unexpected(seen@.take(i as int)),
        decreases seen.len() - i,
    {
        assert(seen@.take(i + 1).drop_last() =~= seen@.take(i as int));
        assert(seen@.take(i + 1).last() == seen[i as int]);
        if !seen[i].intentional {
            out.push((seen[i].id.clone(), seen[i].exit_code));
        }
        i += 1;
    }
    assert(seen@.take(seen.len() as int) =~= seen@);
    out
}

// ---------------------------------------------------------------------------
// Failed creation
// ---------------------------------------------------------------------------

/// The status that a failed creation leaves, the reason and the message that
/// are reported.
pub open spec fn create_error_report(d: &Deployment, e: RuntimeErrorView) -> (
    DeploymentStatus,
    Seq<char>,
    Seq<char>,
) {
    match e {
        RuntimeErrorView::ImageNotFound(detail) => (
            DeploymentStatus::ImagePullBackOff,
            "image_pull_back_off"@,
            "Image '"@ + d.image@ + "' not found: "@ + detail,
        ),
        RuntimeErrorView::ImagePullFailed(detail) => (
            DeploymentStatus::ImagePullBackOff,
            "image_pull_back_off"@,
            "Failed to pull image '"@ + d.image@ + "': "@ + detail,
        ),
        RuntimeErrorView::InstanceCreationFailed(msg) => (
            DeploymentStatus::CreateContainerError,
            "instance_creation_failed"@,
            "Container creation failed: "@ + msg,
        ),
        RuntimeErrorView::NetworkCreationFailed(_) => (
            DeploymentStatus::NetworkError,
            "network_creation_failed"@,
            "Failed to create network for namespace '"@ + d.namespace@ + "'"@,
        ),
        RuntimeErrorView::ConfigNotFound(_) => (
            DeploymentStatus::ConfigError,
            "config_error"@,
            "Config not found in namespace '"@ + d.namespace@ + "'"@,
        ),
        RuntimeErrorView::ConfigKeyNotFound(_) => (
            DeploymentStatus::ConfigError,
            "config_error"@,
            "Config key not found in namespace '"@ + d.namespace@ + "'"@,
        ),
        RuntimeErrorView::StatsFetchFailed(msg) => (
            DeploymentStatus::Error,
            "stats_fetch_failed"@,
            "Stats fetch failed: "@ + msg,
        ),
        RuntimeErrorView::InsufficientResources(detail) => (
            DeploymentStatus::InsufficientResources,
            "insufficient_resources"@,
            detail,
        ),
        RuntimeErrorView::Other(msg) => (
            DeploymentStatus::Error,
            "runtime_error"@,
            "Docker error: "@ + msg,
        ),
        RuntimeErrorView::FirmwareNotFound(msg) => (
            DeploymentStatus::Failed,
            "firmware_not_found"@,
            "Firmware not found: "@ + msg,
        ),
        RuntimeErrorView::VmStartFailed(msg) => (
            DeploymentStatus::Error,
            "vm_start_failed"@,
            "VM start failed: "@ + msg,
        ),
        RuntimeErrorView::PortAlreadyInUse(port) => (
            DeploymentStatus::Error,
            "port_allocation_failed"@,
            "Port "@ + decimal(port as nat) + " is already allocated"@,
        ),
        RuntimeErrorView::Io(text) => (
            DeploymentStatus::FileSystemError,
            "file_system_error"@,
            "IO error: "@ + text,
        ),
        RuntimeErrorView::Json(text) => (
            DeploymentStatus::Error,
            "runtime_error"@,
            "JSON error: "@ + text,
        ),
    }
}

/// The restart count after a failed creation: one that cannot be retried goes
/// straight to the bound.
pub open spec fn restarts_after_create_error(restarts: int, e: RuntimeErrorView) -> int {
    if create_disposition(e) is Terminal {
        MAX_RESTART_COUNT as int
    } else {
        restarts + 1
    }
}

/// Record a failed creation: the status that names the kind of failure, one
/// event, and, where `increment_restart` says so, the restart budget.
pub fn handle_create_error(deployment: &mut Deployment, err: RuntimeError, increment_restart: bool)
    requires
        increment_restart && !(create_disposition(err@) is Terminal) ==> old(
            deployment,
        ).restart_count < u32::MAX,
    ensures
        final(deployment).status == create_error_report(old(deployment), err@).0,
        final(deployment).restart_count == if increment_restart {
            restarts_after_create_error(old(deployment).restart_count as int, err@)
        } else {
            old(deployment).restart_count as int
        },
        final(deployment).log() == old(deployment).log().push(
            event(
                "error"@,
                create_error_report(old(deployment), err@).2,
                "docker"@,
                create_error_report(old(deployment), err@).1,
            ),
        ),
        *final(deployment) == (Deployment {
            status: final(deployment).status,
            restart_count: final(deployment).restart_count,
            pending_events: final(deployment).pending_events,
            ..*old(deployment)
        }),
{
    let terminal = classify_create_error(&err).is_terminal();
    if increment_restart {
        if terminal {
            deployment.restart_count = MAX_RESTART_COUNT;
        } else {
            deployment.restart_count = deployment.restart_count + 1;
        }
    }
    let (status, reason, message): (DeploymentStatus, &str, String) = match &err {
        RuntimeError::ImageNotFound(detail) => (
            DeploymentStatus::ImagePullBackOff,
            "image_pull_back_off",
            cat4("Image '", deployment.image.as_str(), "' not found: ", detail.as_str()),
        ),
        RuntimeError::ImagePullFailed(detail) => (
            DeploymentStatus::ImagePullBackOff,
            "image_pull_back_off",
            cat4("Failed to pull image '", deployment.image.as_str(), "': ", detail.as_str()),
        ),
        RuntimeError::InstanceCreationFailed(msg) => (
            DeploymentStatus::CreateContainerError,
            "instance_creation_failed",
            cat2("Container creation failed: ", msg.as_str()),
        ),
        RuntimeError::NetworkCreationFailed(_) => (
            DeploymentStatus::NetworkError,
            "network_creation_failed",
            cat3(
                "Failed to create network for namespace '",
                deployment.namespace.as_str(),
                "'",
            ),
        ),
        RuntimeError::ConfigNotFound(_) => (
            DeploymentStatus::ConfigError,
            "config_error",
            cat3("Config not found in namespace '", deployment.namespace.as_str(), "'"),
        ),
        RuntimeError::ConfigKeyNotFound(_) => (
            DeploymentStatus::ConfigError,
            "config_error",
            cat3("Config key not found in namespace '", deployment.namespace.as_str(), "'"),
        ),
        RuntimeError::StatsFetchFailed(msg) => (
            DeploymentStatus::Error,
            "stats_fetch_failed",
            cat2("Stats fetch failed: ", msg.as_str()),
        ),
        RuntimeError::InsufficientResources(detail) => (
            DeploymentStatus::InsufficientResources,
            "insufficient_resources",
            detail.clone(),
        ),
        RuntimeError::Other(msg) => (
            DeploymentStatus::Error,
            "runtime_error",
            cat2("Docker error: ", msg.as_str()),
        ),
        RuntimeError::FirmwareNotFound(msg) => (
            DeploymentStatus::Failed,
            "firmware_not_found",
            cat2("Firmware not found: ", msg.as_str()),
        ),
        RuntimeError::VmStartFailed(msg) => (
            DeploymentStatus::Error,
            "vm_start_failed",
            cat2("VM start failed: ", msg.as_str()),
        ),
        RuntimeError::PortAlreadyInUse(port) => (
            DeploymentStatus::Error,
            "port_allocation_failed",
            cat3("Port ", decimal_u64(*port as u64).as_str(), " is already allocated"),
        ),
        RuntimeError::Io(text) => (
            DeploymentStatus::FileSystemError,
            "file_system_error",
            cat2("IO error: ", text.as_str()),
        ),
        RuntimeError::Json(text) => (
            DeploymentStatus::Error,
            "runtime_error",
            cat2("JSON error: ", text.as_str()),
        ),
    };
    deployment.status = status;
    deployment.emit_event("error", message, "docker", reason);
}

// ---------------------------------------------------------------------------
// Removal
// ---------------------------------------------------------------------------

/// The directory that holds the rendered config files of a deployment.
pub open spec fn scratch_dir_text(id: Seq<char>) -> Seq<char> {
    "/tmp/ring_configs/"@ + id
}

/// The directory that holds the rendered config files of a deployment.
pub fn scratch_dir(deployment_id: &str) -> (r: String)
    ensures
        r@ == scratch_dir_text(deployment_id@),
{
    cat2("/tmp/ring_configs/", deployment_id)
}

/// The events after all instances of a deleted deployment were removed.
pub open spec fn log_after_removal(d: &Deployment, kind: Seq<char>) -> Seq<EventView> {
    if d.instances.len() > 0 {
        d.log().push(
            event(
                "info"@,
                "Deleted "@ + decimal(d.instances.len() as nat) + " container(s) for "@ + kind
                    + " marked as deleted"@,
                "docker"@,
                "container_deletion"@,
            ),
        )
    } else {
        d.log()
    }
}

/// Report the removal of all instances of a deployment that is deleted.
pub fn remove_all_instances(deployment: &mut Deployment, kind: &str)
    ensures
        final(deployment).log() == log_after_removal(old(deployment), kind@),
        *final(deployment) == (Deployment {
            pending_events: final(deployment).pending_events,
            ..*old(deployment)
        }),
{
    let count: usize = deployment.instances.len();
    if count > 0 {
        let text = decimal_u64(count as u64);
        deployment.emit_event(
            "info",
            cat5("Deleted ", text.as_str(), " container(s) for ", kind, " marked as deleted"),
            "docker",
            "container_deletion",
        );
    }
}

// ---------------------------------------------------------------------------
// One tick of a deployment
// ---------------------------------------------------------------------------

/// Which containers are listed at the start of a tick.
pub open spec fn tick_filter(status: DeploymentStatus) -> Seq<char> {
    if status == DeploymentStatus::Deleted {
        "all"@
    } else {
        "active"@
    }
}

/// Which containers are listed at the start of a tick: all of them where the
/// deployment is deleted, the active ones otherwise.
pub fn status_filter(status: DeploymentStatus) -> (r: &'static str)
    ensures
        r@ == tick_filter(status),
{
    if status == DeploymentStatus::Deleted {
        "all"
    } else {
        "active"
    }
}

/// Whether a deployment runs to completion instead of staying up.
pub fn is_job(deployment: &Deployment) -> (r: bool)
    ensures
        r == (deployment.kind@ == "job"@),
{
    same(deployment.kind.as_str(), "job")
}

/// What is to be done next for a worker.
#[derive(Debug)]
pub enum WorkerAction {
    /// The tick is over.
    Done,
    /// Mark every instance as stopped on purpose and remove it, then remove the
    /// scratch directory. The tick is over.
    RemoveAll,
    /// List the exited containers, remove each of them, and report them.
    ListExited,
    /// Create one container and report the result.
    Create,
    /// Mark this container as stopped on purpose and remove it. The tick is
    /// over.
    Remove(String),
    /// Let this container settle, inspect it and report its state.
    Inspect(String),
}

/// A [`WorkerAction`] by its contents.
pub enum WorkerActionView {
    Done,
    RemoveAll,
    ListExited,
    Create,
    Remove(Seq<char>),
    Inspect(Seq<char>),
}

impl View for WorkerAction {
    type V = WorkerActionView;

    open spec fn view(&self) -> WorkerActionView {
        match *self {
            WorkerAction::Done => WorkerActionView::Done,
            WorkerAction::RemoveAll => WorkerActionView::RemoveAll,
            WorkerAction::ListExited => WorkerActionView::ListExited,
            WorkerAction::Create => WorkerActionView::Create,
            WorkerAction::Remove(id) => WorkerActionView::Remove(id@),
            WorkerAction::Inspect(id) => WorkerActionView::Inspect(id@),
        }
    }
}

/// What a worker's tick begins with.
pub open spec fn worker_first_action(d: &Deployment) -> WorkerActionView {
    if d.status == DeploymentStatus::Deleted {
        WorkerActionView::RemoveAll
    } else if d.restart_count >= MAX_RESTART_COUNT || d.status
        == DeploymentStatus::CrashLoopBackOff {
        WorkerActionView::Done
    } else {
        WorkerActionView::ListExited
    }
}

/// Begin a worker's tick. A deleted worker loses its instances; one that has
/// spent its restart budget is left alone in the crash loop status.
pub fn worker_begin(deployment: &mut Deployment) -> (r: WorkerAction)
    ensures
        r@ == worker_first_action(old(deployment)),
        final(deployment).status == if old(deployment).status != DeploymentStatus::Deleted && old(
            deployment,
        ).restart_count >= MAX_RESTART_COUNT {
            DeploymentStatus::CrashLoopBackOff
        } else {
            old(deployment).status
        },
        final(deployment).log() == if old(deployment).status == DeploymentStatus::Deleted {
            log_after_removal(old(deployment), "worker"@)
        } else {
            old(deployment).log()
        },
        *final(deployment) == (Deployment {
            status: final(deployment).status,
            pending_events: final(deployment).pending_events,
            ..*old(deployment)
        }),
{
    if deployment.status == DeploymentStatus::Deleted {
        remove_all_instances(deployment, "worker");
        return WorkerAction::RemoveAll;
    }
    if deployment.restart_count >= MAX_RESTART_COUNT {
        deployment.status = DeploymentStatus::CrashLoopBackOff;
        return WorkerAction::Done;
    }
    if deployment.status == DeploymentStatus::CrashLoopBackOff {
        return WorkerAction::Done;
    }
    WorkerAction::ListExited
}

/// What a worker's tick does to reach the declared number of replicas: one
/// container more, one less, or nothing.
pub open spec fn scale_action(d: &Deployment) -> WorkerActionView {
    if d.instances.len() < d.replicas {
        WorkerActionView::Create
    } else if d.instances.len() > d.replicas {
        WorkerActionView::Remove(d.instances@[0]@)
    } else {
        WorkerActionView::Done
    }
}

/// The report of a container that was removed to scale down.
pub open spec fn scale_down_event(count: int, id: Seq<char>) -> EventView {
    event(
        "info"@,
        "Scaled down from "@ + decimal(count as nat) + " to "@ + decimal((count - 1) as nat)
            + " replicas (removed container "@ + id + ")"@,
        "docker"@,
        "scale_down"@,
    )
}

/// Take one step towards the declared number of replicas. Where there are too
/// many instances the oldest one leaves the list.
fn worker_scale(deployment: &mut Deployment) -> (r: WorkerAction)
    ensures
        r@ == scale_action(old(deployment)),
        r@ is Remove ==> {
            &&& final(deployment).instances@ == old(deployment).instances@.skip(1)
            &&& final(deployment).log() == old(deployment).log().push(
                scale_down_event(
                    old(deployment).instances.len() as int,
                    old(deployment).instances@[0]@,
                ),
            )
            &&& *final(deployment) == (Deployment {
                instances: final(deployment).instances,
                pending_events: final(deployment).pending_events,
                ..*old(deployment)
            })
        },
        !(r@ is Remove) ==> *final(deployment) == *old(deployment),
{
    let current: usize = deployment.instances.len();
    let target: usize = deployment.replicas as usize;
    if current < target {
        return WorkerAction::Create;
    }
    if current > target {
        let id = deployment.instances.remove(0);
        assert(deployment.instances@ =~= old(deployment).instances@.skip(1));
        let from = decimal_u64(current as u64);
        let to = decimal_u64((current - 1) as u64);
        deployment.emit_event(
            "info",
            cat7(
                "Scaled down from ",
                from.as_str(),
                " to ",
                to.as_str(),
                " replicas (removed container ",
                id.as_str(),
                ")",
            ),
            "docker",
            "scale_down",
        );
        return WorkerAction::Remove(id);
    }
    WorkerAction::Done
}

/// Go on with a worker's tick once the exited containers are known: count the
/// crashes and, unless they end the deployment, take one step towards the
/// declared number of replicas.
pub fn worker_exits_seen(deployment: &mut Deployment, seen: &Vec<ExitedContainer>) -> (r:
    WorkerAction)
    requires
        old(deployment).restart_count + counted_exits(unexpected(seen@)) <= u32::MAX,
        forall|i: int|
            0 <= i < counted_exits(unexpected(seen@)) ==> cuts_cleanly(
                (#[trigger] unexpected(seen@)[i]).0@,
                12,
            ),
    ensures
        ({
            let exited = unexpected(seen@);
            let restarts = old(deployment).restart_count as int;
            let counted = old(deployment).log() + exit_events(exited, restarts);
            &&& final(deployment).restart_count == restarts + counted_exits(exited)
            &&& final(deployment).status == status_after_exits(
                old(deployment).status,
                exited,
                restarts,
            )
            &&& r@ == if exits_stop(exited, restarts) {
                WorkerActionView::Done
            } else {
                scale_action(old(deployment))
            }
            &&& final(deployment).instances@ == if r@ is Remove {
                old(deployment).instances@.skip(1)
            } else {
                old(deployment).instances@
            }
            &&& final(deployment).log() == if r@ is Remove {
                counted.push(
                    scale_down_event(
                        old(deployment).instances.len() as int,
                        old(deployment).instances@[0]@,
                    ),
                )
            } else {
                counted
            }
        }),
        final(deployment).image_digest == old(deployment).image_digest,
        final(deployment).same_declaration(old(deployment)),
{
    let crashed = detect_crashes(seen);
    if apply_unexpected_exits(deployment, &crashed) {
        return WorkerAction::Done;
    }
    worker_scale(deployment)
}

/// The report of a container that was created to scale up.
pub open spec fn scale_up_event(count: int) -> EventView {
    event(
        "info"@,
        "Scaled up from "@ + decimal(count as nat) + " to "@ + decimal((count + 1) as nat)
            + " replicas"@,
        "docker"@,
        "scale_up"@,
    )
}

/// Whether a worker has not been up yet.
pub open spec fn is_starting(status: DeploymentStatus) -> bool {
    status == DeploymentStatus::Pending || status == DeploymentStatus::Creating
}

/// Go on with a worker's tick once the creation of a container succeeded.
/// `current` is the number of instances before it. A worker that is coming up
/// is only reported as running after its newest container was seen alive.
pub fn worker_created(deployment: &mut Deployment, current: usize) -> (r: WorkerAction)
    requires
        current < usize::MAX,
    ensures
        final(deployment).log() == old(deployment).log().push(scale_up_event(current as int)),
        final(deployment).status == if is_starting(old(deployment).status) && old(
            deployment,
        ).instances.len() == 0 {
            DeploymentStatus::Running
        } else {
            old(deployment).status
        },
        r@ == if is_starting(old(deployment).status) && old(deployment).instances.len() > 0 {
            WorkerActionView::Inspect(old(deployment).instances@.last()@)
        } else {
            WorkerActionView::Done
        },
        *final(deployment) == (Deployment {
            status: final(deployment).status,
            pending_events: final(deployment).pending_events,
            ..*old(deployment)
        }),
{
    let from = decimal_u64(current as u64);
    let to = decimal_u64((current + 1) as u64);
    deployment.emit_event(
        "info",
        cat5("Scaled up from ", from.as_str(), " to ", to.as_str(), " replicas"),
        "docker",
        "scale_up",
    );
    if deployment.status == DeploymentStatus::Pending || deployment.status
        == DeploymentStatus::Creating {
        let n: usize = deployment.instances.len();
        if n > 0 {
            return WorkerAction::Inspect(deployment.instances[n - 1].clone());
        }
        deployment.status = DeploymentStatus::Running;
    }
    WorkerAction::Done
}

/// Whether the state of a container that was just started confirms that it is
/// alive: one that has exited, with whatever code, is not.
pub fn confirmed_alive(status: &InstanceStatus) -> (r: bool)
    ensures
        r == (*status == InstanceStatus::Running),
{
    *status == InstanceStatus::Running
}

/// The report of a container that did not stay up.
pub open spec fn liveness_event() -> EventView {
    event(
        "warning"@,
        "Container exited immediately after start; not reporting Running yet"@,
        "docker"@,
        "liveness_unconfirmed"@,
    )
}

/// End a worker's tick with what the inspection of its newest container showed:
/// the worker is running, or the container leaves the list.
pub fn worker_inspected(deployment: &mut Deployment, status: &InstanceStatus)
    ensures
        *status == InstanceStatus::Running ==> *final(deployment) == (Deployment {
            status: DeploymentStatus::Running,
            ..*old(deployment)
        }),
        *status != InstanceStatus::Running ==> {
            &&& final(deployment).instances@ == without_last(old(deployment).instances@)
            &&& final(deployment).log() == old(deployment).log().push(liveness_event())
            &&& *final(deployment) == (Deployment {
                instances: final(deployment).instances,
                pending_events: final(deployment).pending_events,
                ..*old(deployment)
            })
        },
{
    if confirmed_alive(status) {
        deployment.status = DeploymentStatus::Running;
    } else {
        let _ = deployment.instances.pop();
        assert(deployment.instances@ =~= without_last(old(deployment).instances@));
        deployment.emit_event(
            "warning",
            "Container exited immediately after start; not reporting Running yet".to_owned(),
            "docker",
            "liveness_unconfirmed",
        );
    }
}

/// What is to be done next for a job.
#[derive(Clone, Copy, Debug, PartialEq, Eq, Structural)]
pub enum JobAction {
    /// The tick is over.
    Done,
    /// Mark every instance as stopped on purpose and remove it, then remove the
    /// scratch directory. The tick is over.
    RemoveAll,
    /// List the containers of the job with [`job_filter`], and go on with
    /// [`job_listed`].
    FindInstance,
}

/// Which containers of a job are listed: all of them, whatever their state.
pub fn job_filter() -> (r: &'static str)
    ensures
        r@ == "all"@,
{
    "all"
}

/// What is done for a job once its containers are listed.
#[derive(Debug)]
pub enum JobStep {
    /// Inspect this container and report its state. The tick is over then.
    Inspect(String),
    /// Create a container and report the result. The tick is over then.
    Create,
}

/// A [`JobStep`] by its contents.
pub enum JobStepView {
    Inspect(Seq<char>),
    Create,
}

impl View for JobStep {
    type V = JobStepView;

    open spec fn view(&self) -> JobStepView {
        match *self {
            JobStep::Inspect(id) => JobStepView::Inspect(id@),
            JobStep::Create => JobStepView::Create,
        }
    }
}

/// What is done for a job with these containers: the first one is inspected,
/// and one is created only where there is none.
pub open spec fn job_step(all: Seq<Seq<char>>) -> JobStepView {
    if all.len() > 0 {
        JobStepView::Inspect(all[0])
    } else {
        JobStepView::Create
    }
}

/// Go on with a job's tick, given its containers in any state.
pub fn job_listed(all: &Vec<String>) -> (r: JobStep)
    ensures
        r@ == job_step(strs(all@)),
{
    if all.len() > 0 {
        JobStep::Inspect(all[0].clone())
    } else {
        JobStep::Create
    }
}

/// Begin a job's tick. A job that has ended stays as it is; one that has spent
/// its restart budget has failed.
pub fn job_begin(deployment: &mut Deployment) -> (r: JobAction)
    ensures
        ({
            let status = old(deployment).status;
            let ended = status == DeploymentStatus::Completed || status
                == DeploymentStatus::Failed;
            &&& r == if status == DeploymentStatus::Deleted {
                JobAction::RemoveAll
            } else if ended || old(deployment).restart_count >= MAX_RESTART_COUNT {
                JobAction::Done
            } else {
                JobAction::FindInstance
            }
            &&& final(deployment).status == if status != DeploymentStatus::Deleted && !ended && old(
                deployment,
            ).restart_count >= MAX_RESTART_COUNT {
                DeploymentStatus::Failed
            } else {
                status
            }
            &&& final(deployment).log() == if status == DeploymentStatus::Deleted {
                log_after_removal(old(deployment), "job"@)
            } else {
                old(deployment).log()
            }
        }),
        *final(deployment) == (Deployment {
            status: final(deployment).status,
            pending_events: final(deployment).pending_events,
            ..*old(deployment)
        }),
{
    if deployment.status == DeploymentStatus::Deleted {
        remove_all_instances(deployment, "job");
        return JobAction::RemoveAll;
    }
    if deployment.status == DeploymentStatus::Completed || deployment.status
        == DeploymentStatus::Failed {
        return JobAction::Done;
    }
    if deployment.restart_count >= MAX_RESTART_COUNT {
        deployment.status = DeploymentStatus::Failed;
        return JobAction::Done;
    }
    JobAction::FindInstance
}

/// The status of a job whose container is in the given state.
pub open spec fn job_status(status: InstanceStatus) -> DeploymentStatus {
    match status {
        InstanceStatus::Running => DeploymentStatus::Running,
        InstanceStatus::Completed => DeploymentStatus::Completed,
        InstanceStatus::Failed => DeploymentStatus::Failed,
    }
}

/// End a job's tick with the state of its container.
pub fn job_inspected(deployment: &mut Deployment, status: InstanceStatus)
    ensures
        *final(deployment) == (Deployment { status: job_status(status), ..*old(deployment) }),
{
    deployment.status = match status {
        InstanceStatus::Running => DeploymentStatus::Running,
        InstanceStatus::Completed => DeploymentStatus::Completed,
        InstanceStatus::Failed => DeploymentStatus::Failed,
    };
}

/// End a job's tick after its container was created.
pub fn job_created(deployment: &mut Deployment)
    ensures
        *final(deployment) == (Deployment {
            status: DeploymentStatus::Running,
            ..*old(deployment)
        }),
{
    deployment.status = DeploymentStatus::Running;
}

/// What the daemon says about a container.
#[derive(Clone, Copy, Debug, PartialEq, Eq, Structural)]
pub struct ContainerState {
    pub running: Option<bool>,
    pub exit_code: Option<i64>,
}

/// The state of a container, from the daemon's answer; `None` stands for a
/// failed inspection and for an answer without a state.
pub open spec fn container_status(state: Option<ContainerState>) -> InstanceStatus {
    match state {
        Some(s) => if s.running == Some(true) {
            InstanceStatus::Running
        } else if s.exit_code == Some(0i64) {
            InstanceStatus::Completed
        } else {
            InstanceStatus::Failed
        },
        None => InstanceStatus::Failed,
    }
}

/// The state of a container: running, ended with code zero, or failed.
pub fn check_container_status(state: Option<ContainerState>) -> (r: InstanceStatus)
    ensures
        r == container_status(state),
{
    match state {
        Some(s) => {
            let running = match s.running {
                Some(b) => b,
                None => false,
            };
            let clean = match s.exit_code {
                Some(code) => code == 0,
                None => false,
            };
            if running {
                InstanceStatus::Running
            } else if clean {
                InstanceStatus::Completed
            } else {
                InstanceStatus::Failed
            }
        },
        None => InstanceStatus::Failed,
    }
}

// ---------------------------------------------------------------------------
// Laws
// ---------------------------------------------------------------------------

/// Every tick that sees an unexpected exit either ends the deployment or uses
/// up at least one restart, so a worker that keeps crashing reaches a terminal
/// status after at most `MAX_RESTART_COUNT` such ticks.
pub proof fn law_crash_loop_converges(
    status: DeploymentStatus,
    exited: Seq<(String, Option<i64>)>,
    restarts: int,
)
    requires
        0 <= restarts,
        exited.len() > 0,
    ensures
        counted_exits(exited) >= 1,
        !exits_stop(exited, restarts) ==> restarts + counted_exits(exited) < MAX_RESTART_COUNT,
        exits_stop(exited, restarts) ==> {
            let s = status_after_exits(status, exited, restarts);
            s == DeploymentStatus::CrashLoopBackOff || s == DeploymentStatus::CreateContainerError
        },
{
    lemma_first_terminal(exited, 0);
    lemma_terminal_holds(exited);
}

/// The exit at the first terminal position is terminal.
proof fn lemma_terminal_holds(exited: Seq<(String, Option<i64>)>)
    ensures
        0 <= first_terminal(exited) <= exited.len(),
        first_terminal(exited) < exited.len() ==> exit_disposition(
            exited[first_terminal(exited)].1,
        ) is Terminal,
    decreases exited.len(),
{
    if exited.len() > 0 && exit_disposition(exited[0].1) is Retryable {
        lemma_terminal_holds(exited.skip(1));
        let t = first_terminal(exited.skip(1));
        if t < exited.len() - 1 {
            assert(exited.skip(1)[t] == exited[t + 1]);
        }
    }
}

/// A tick without an unexpected exit counts nothing and reports nothing, so a
/// container that was stopped on purpose is never taken for a crash.
pub proof fn law_no_exit_no_count(seen: Seq<ExitedContainer>)
    requires
        forall|i: int| 0 <= i < seen.len() ==> (#[trigger] seen[i]).intentional,
    ensures
        unexpected(seen).len() == 0,
        counted_exits(unexpected(seen)) == 0,
        forall|restarts: int| #[trigger] exit_events(unexpected(seen), restarts) =~= seq![],
    decreases seen.len(),
{
    if seen.len() > 0 {
        let init = seen.drop_last();
        assert forall|i: int| 0 <= i < init.len() implies (#[trigger] init[i]).intentional by {
            assert(init[i] == seen[i]);
        }
        law_no_exit_no_count(init);
        assert(seen[seen.len() - 1].intentional);
    }
}

/// A failed creation that counts against the restart budget brings the worker
/// nearer to its bound or straight to it: once the count has reached the bound
/// the next tick begins with nothing left to do.
pub proof fn law_create_errors_converge(d: &Deployment, e: RuntimeErrorView)
    ensures
        create_disposition(e) is Terminal ==> restarts_after_create_error(
            d.restart_count as int,
            e,
        ) == MAX_RESTART_COUNT,
        create_disposition(e) is Retryable ==> restarts_after_create_error(
            d.restart_count as int,
            e,
        ) == d.restart_count + 1,
        d.restart_count >= MAX_RESTART_COUNT && d.status != DeploymentStatus::Deleted
            ==> worker_first_action(d) == WorkerActionView::Done,
{
}

/// A tick moves the number of instances by at most one, and only towards the
/// declared number of replicas.
pub proof fn law_scaling_is_monotone(d: &Deployment)
    ensures
        scale_action(d) is Create <==> d.instances.len() < d.replicas,
        scale_action(d) is Remove <==> d.instances.len() > d.replicas,
        scale_action(d) is Done <==> d.instances.len() == d.replicas,
{
}

/// A job that has a container, in whatever state, is never given another one:
/// the listing of its containers holds that one, so one of them is inspected.
pub proof fn law_existing_container_is_never_recreated(
    containers: Seq<ContainerSummary>,
    deployment: Seq<char>,
    i: int,
)
    requires
        0 <= i < containers.len(),
        owner_of(containers[i]) == Some(deployment),
        containers[i].id is Some,
    ensures
        job_step(listed_ids(containers, deployment, "all"@)) matches JobStepView::Inspect(id)
            && listed_ids(containers, deployment, "all"@).contains(id),
{
    lemma_owned_is_listed(containers, deployment, i);
    let all = listed_ids(containers, deployment, "all"@);
    assert(all.contains(all[0]));
}

/// A listing of all containers holds every one of the deployment.
proof fn lemma_owned_is_listed(containers: Seq<ContainerSummary>, deployment: Seq<char>, i: int)
    requires
        0 <= i < containers.len(),
        owner_of(containers[i]) == Some(deployment),
        containers[i].id is Some,
    ensures
        listed_ids(containers, deployment, "all"@).len() > 0,
    decreases containers.len(),
{
    if i < containers.len() - 1 {
        lemma_owned_is_listed(containers.drop_last(), deployment, i);
    } else {
        assert(listed_id(containers[i], deployment, "all"@) is Some);
    }
}

/// After a job's container was inspected the deployment has ended well exactly
/// where the container does not run and its exit code is zero, runs exactly
/// where the container runs, and has failed in every other case: another exit
/// code, none, or an answer without a state. Nothing else of it changes.
pub proof fn law_job_ends_as_its_container(
    state: Option<ContainerState>,
    status: InstanceStatus,
    deployment: &mut Deployment,
)
    requires
        call_ensures(check_container_status, (state,), status),
        call_ensures(job_inspected, (deployment, status), ()),
    ensures
        final(deployment).status == DeploymentStatus::Running <==> (state matches Some(s)
            && s.running == Some(true)),
        final(deployment).status == DeploymentStatus::Completed <==> (state matches Some(s)
            && s.running != Some(true) && s.exit_code == Some(0i64)),
        final(deployment).status == DeploymentStatus::Failed <==> (state matches Some(s)
            ==> s.running != Some(true) && s.exit_code != Some(0i64)),
        final(deployment).restart_count == old(deployment).restart_count,
{
}

/// What the unexpected exits of one tick do. `first` is the place of the first
/// of them whose code says that the command cannot be run, or their number
/// where there is none: the exits up to there use up one restart each and are
/// reported one by one. Such a code ends the deployment at once; without one it
/// ends exactly where the count has reached the bound.
pub proof fn law_exits_are_counted_up_to_a_fatal_one(
    deployment: &mut Deployment,
    exited: &Vec<(String, Option<i64>)>,
    first: int,
    r: bool,
)
    requires
        call_ensures(apply_unexpected_exits, (deployment, exited), r),
        0 <= first <= exited@.len(),
        forall|i: int|
            0 <= i < first ==> !((#[trigger] exited@[i]).1 == Some(126i64) || exited@[i].1
                == Some(127i64)),
        first < exited@.len() ==> (exited@[first].1 == Some(126i64) || exited@[first].1 == Some(
            127i64,
        )),
    ensures
        first < exited@.len() ==> {
            &&& r
            &&& final(deployment).restart_count == old(deployment).restart_count + first + 1
            &&& final(deployment).status == DeploymentStatus::CreateContainerError
            &&& final(deployment).log().len() == old(deployment).log().len() + first + 2
        },
        first == exited@.len() ==> {
            &&& final(deployment).restart_count == old(deployment).restart_count + exited@.len()
            &&& r <==> final(deployment).restart_count >= 5
            &&& r ==> final(deployment).status == DeploymentStatus::CrashLoopBackOff
            &&& !r ==> final(deployment).status == old(deployment).status
            &&& final(deployment).log().len() == old(deployment).log().len() + exited@.len()
        },
        final(deployment).log().take(old(deployment).log().len() as int) == old(deployment).log(),
        final(deployment).instances@ == old(deployment).instances@,
{
    assert forall|j: int| 0 <= j < first implies exit_disposition(
        (#[trigger] exited@[j]).1,
    ) is Retryable by {}
    lemma_first_terminal(exited@, first);
    assert(final(deployment).log().take(old(deployment).log().len() as int) =~= old(
        deployment,
    ).log());
}

/// Of the exited containers exactly those whose exit was not asked for are
/// crashes, in the order in which they were found: one more container adds
/// itself at the end, or nothing where it was stopped on purpose.
pub proof fn law_only_unasked_exits_are_crashes(
    seen: &Vec<ExitedContainer>,
    more: &Vec<ExitedContainer>,
    last: ExitedContainer,
    crashes: Vec<(String, Option<i64>)>,
    after: Vec<(String, Option<i64>)>,
)
    requires
        more@ == seen@.push(last),
        call_ensures(detect_crashes, (seen,), crashes),
        call_ensures(detect_crashes, (more,), after),
    ensures
        seen@.len() == 0 ==> crashes@.len() == 0,
        last.intentional ==> after@ == crashes@,
        !last.intentional ==> after@ == crashes@.push((last.id, last.exit_code)),
{
    assert(more@.drop_last() =~= seen@);
}

/// A failed creation leaves the status that names its kind, uses up the restart
/// budget only where it is told to, all of it where a retry cannot help, and is
/// reported once.
pub proof fn law_create_error_is_recorded(
    deployment: &mut Deployment,
    err: RuntimeError,
    increment_restart: bool,
)
    requires
        call_ensures(handle_create_error, (deployment, err, increment_restart), ()),
    ensures
        final(deployment).status == DeploymentStatus::ImagePullBackOff <==> (err is ImageNotFound
            || err is ImagePullFailed),
        final(deployment).status == DeploymentStatus::CreateContainerError
            <==> err is InstanceCreationFailed,
        final(deployment).status == DeploymentStatus::NetworkError
            <==> err is NetworkCreationFailed,
        final(deployment).status == DeploymentStatus::ConfigError <==> (err is ConfigNotFound
            || err is ConfigKeyNotFound),
        final(deployment).status == DeploymentStatus::InsufficientResources
            <==> err is InsufficientResources,
        final(deployment).status == DeploymentStatus::FileSystemError <==> err is Io,
        final(deployment).status == DeploymentStatus::Failed <==> err is FirmwareNotFound,
        final(deployment).status == DeploymentStatus::Error <==> (err is StatsFetchFailed
            || err is VmStartFailed || err is PortAlreadyInUse || err is Other || err is Json),
        !increment_restart ==> final(deployment).restart_count == old(deployment).restart_count,
        increment_restart ==> {
            let hopeless = err is ImageNotFound || err is ConfigNotFound || err is ConfigKeyNotFound
                || err is InstanceCreationFailed || err is FirmwareNotFound
                || err is InsufficientResources;
            &&& hopeless ==> final(deployment).restart_count == 5
            &&& !hopeless ==> final(deployment).restart_count == old(deployment).restart_count + 1
        },
        final(deployment).log().len() == old(deployment).log().len() + 1,
        final(deployment).log().drop_last() == old(deployment).log(),
        final(deployment).log().last().level == "error"@,
        final(deployment).log().last().component == "docker"@,
        err matches RuntimeError::ImageNotFound(detail) ==> detail@.is_suffix_of(
            final(deployment).log().last().message,
        ),
        err matches RuntimeError::ImagePullFailed(detail) ==> detail@.is_suffix_of(
            final(deployment).log().last().message,
        ),
        err matches RuntimeError::InstanceCreationFailed(detail) ==> detail@.is_suffix_of(
            final(deployment).log().last().message,
        ),
        err matches RuntimeError::InsufficientResources(detail) ==> detail@ == final(deployment).log().last().message,
        err matches RuntimeError::Io(detail) ==> detail@.is_suffix_of(
            final(deployment).log().last().message,
        ),
        final(deployment).instances@ == old(deployment).instances@,
{
    assert(final(deployment).log().drop_last() =~= old(deployment).log());
    let message = final(deployment).log().last().message;
    if let RuntimeError::ImageNotFound(detail) = err {
        assert(message.subrange(message.len() - detail@.len(), message.len() as int) =~= detail@);
    }
    if let RuntimeError::ImagePullFailed(detail) = err {
        assert(message.subrange(message.len() - detail@.len(), message.len() as int) =~= detail@);
    }
    if let RuntimeError::InstanceCreationFailed(detail) = err {
        assert(message.subrange(message.len() - detail@.len(), message.len() as int) =~= detail@);
    }
    if let RuntimeError::Io(detail) = err {
        assert(message.subrange(message.len() - detail@.len(), message.len() as int) =~= detail@);
    }
}

/// A worker's tick begins with the removal of everything exactly where the
/// worker is deleted, and looks at the exited containers exactly where the
/// worker is neither deleted nor out of restarts. The budget itself is not
/// touched.
pub proof fn law_worker_tick_begins(deployment: &mut Deployment, r: WorkerAction)
    requires
        call_ensures(worker_begin, (deployment,), r),
    ensures
        ({
            let deleted = old(deployment).status == DeploymentStatus::Deleted;
            let spent = old(deployment).restart_count >= 5;
            let looping = old(deployment).status == DeploymentStatus::CrashLoopBackOff;
            &&& r is RemoveAll <==> deleted
            &&& r is ListExited <==> !deleted && !spent && !looping
            &&& r is Done <==> !deleted && (spent || looping)
            &&& deleted ==> final(deployment).status == DeploymentStatus::Deleted
            &&& r is Done ==> final(deployment).status == DeploymentStatus::CrashLoopBackOff
            &&& r is ListExited ==> *final(deployment) == (Deployment {
                pending_events: final(deployment).pending_events,
                ..*old(deployment)
            })
            &&& final(deployment).log().len() == old(deployment).log().len() + if deleted && old(
                deployment,
            ).instances@.len() > 0 {
                1int
            } else {
                0
            }
        }),
        final(deployment).restart_count == old(deployment).restart_count,
        final(deployment).instances@ == old(deployment).instances@,
{
}

/// After the exits were counted a worker's tick moves by at most one instance
/// towards the declared number, and only where the exits did not end the
/// deployment. `crashes` are the exits that were not asked for, and `fatal`
/// says whether one of them shows a command that cannot be run. What is removed
/// is the oldest instance.
pub proof fn law_worker_tick_scales_by_one(
    deployment: &mut Deployment,
    seen: &Vec<ExitedContainer>,
    crashes: Vec<(String, Option<i64>)>,
    fatal: bool,
    r: WorkerAction,
)
    requires
        call_ensures(detect_crashes, (seen,), crashes),
        call_ensures(worker_exits_seen, (deployment, seen), r),
        fatal <==> exists|i: int|
            0 <= i < crashes@.len() && ((#[trigger] crashes@[i]).1 == Some(126i64) || crashes@[i].1
                == Some(127i64)),
    ensures
        ({
            let before = old(deployment).instances@;
            let replicas = old(deployment).replicas;
            let ends = fatal || old(deployment).restart_count + crashes@.len() >= 5;
            &&& r is Create <==> !ends && before.len() < replicas
            &&& r is Remove <==> !ends && before.len() > replicas
            &&& r is Done <==> ends || before.len() == replicas
            &&& r matches WorkerAction::Remove(id) ==> id@ == before[0]@ && final(deployment).instances@ == before.subrange(1, before.len() as int)
            &&& !(r is Remove) ==> final(deployment).instances@ == before
            &&& fatal ==> final(deployment).status == DeploymentStatus::CreateContainerError
            &&& !fatal && ends ==> final(deployment).status == DeploymentStatus::CrashLoopBackOff
            &&& !ends ==> final(deployment).status == old(deployment).status
            &&& !fatal ==> final(deployment).restart_count == old(deployment).restart_count
                + crashes@.len()
        }),
        final(deployment).replicas == old(deployment).replicas,
{
    let exited = unexpected(seen@);
    lemma_terminal_holds(exited);
    let t = first_terminal(exited);
    if fatal {
        if t == exited.len() {
            lemma_all_retryable(exited);
            let i = choose|i: int|
                0 <= i < crashes@.len() && ((#[trigger] crashes@[i]).1 == Some(126i64)
                    || crashes@[i].1 == Some(127i64));
            assert(exit_disposition(exited[i].1) is Retryable);
        }
    } else if t < exited.len() {
        assert(crashes@[t].1 == Some(126i64) || crashes@[t].1 == Some(127i64));
    }
}

/// Where no exit is the first terminal one, all of them can be retried.
proof fn lemma_all_retryable(exited: Seq<(String, Option<i64>)>)
    requires
        first_terminal(exited) == exited.len(),
    ensures
        forall|i: int|
            0 <= i < exited.len() ==> exit_disposition((#[trigger] exited[i]).1) is Retryable,
    decreases exited.len(),
{
    if exited.len() > 0 {
        lemma_all_retryable(exited.skip(1));
        assert forall|i: int| 0 <= i < exited.len() implies exit_disposition(
            (#[trigger] exited[i]).1,
        ) is Retryable by {
            if i > 0 {
                assert(exited[i] == exited.skip(1)[i - 1]);
            }
        }
    }
}

/// A worker that is coming up is reported as running only after an inspection
/// that saw its newest container run: the creation asks for that inspection
/// wherever there is an instance, and one that does not run leaves the list
/// without the status being changed.
pub proof fn law_running_is_reported_after_a_look(
    created: &mut Deployment,
    current: usize,
    r: WorkerAction,
    inspected: &mut Deployment,
    status: &InstanceStatus,
)
    requires
        call_ensures(worker_created, (created, current), r),
        call_ensures(worker_inspected, (inspected, status), ()),
    ensures
        ({
            let coming_up = old(created).status == DeploymentStatus::Pending || old(created).status
                == DeploymentStatus::Creating;
            let count = old(created).instances@.len();
            &&& r is Inspect <==> coming_up && count > 0
            &&& r is Inspect || r is Done
            &&& r matches WorkerAction::Inspect(id) ==> id@ == old(created).instances@[count - 1]@
            &&& count > 0 || !coming_up ==> final(created).status == old(created).status
            &&& coming_up && count == 0 ==> final(created).status == DeploymentStatus::Running
        }),
        final(created).log().len() == old(created).log().len() + 1,
        final(created).instances@ == old(created).instances@,
        *status == InstanceStatus::Running ==> final(inspected).status == DeploymentStatus::Running
            && final(inspected).instances@ == old(inspected).instances@ && final(inspected).log()
            == old(inspected).log(),
        *status != InstanceStatus::Running ==> final(inspected).status == old(inspected).status
            && final(inspected).log().len() == old(inspected).log().len() + 1,
        *status != InstanceStatus::Running && old(inspected).instances@.len() > 0 ==> final(inspected).instances@ == old(inspected).instances@.drop_last(),
        *status != InstanceStatus::Running && old(inspected).instances@.len() == 0 ==> final(inspected).instances@.len() == 0,
        final(inspected).restart_count == old(inspected).restart_count,
{
}

/// A job's tick removes everything exactly where the job is deleted, leaves one
/// that has ended as it is, fails one that is out of restarts, and looks for
/// the containers of any other; one is created exactly where there is none.
pub proof fn law_job_tick_begins(
    deployment: &mut Deployment,
    r: JobAction,
    all: &Vec<String>,
    step: JobStep,
)
    requires
        call_ensures(job_begin, (deployment,), r),
        call_ensures(job_listed, (all,), step),
    ensures
        ({
            let was = old(deployment).status;
            let ended = was == DeploymentStatus::Completed || was == DeploymentStatus::Failed;
            let spent = old(deployment).restart_count >= 5;
            &&& r == JobAction::RemoveAll <==> was == DeploymentStatus::Deleted
            &&& r == JobAction::FindInstance <==> was != DeploymentStatus::Deleted && !ended
                && !spent
            &&& was == DeploymentStatus::Deleted || ended || !spent ==> final(deployment).status
                == was
            &&& was != DeploymentStatus::Deleted && spent && !ended ==> final(deployment).status
                == DeploymentStatus::Failed
        }),
        final(deployment).restart_count == old(deployment).restart_count,
        step is Create <==> all@.len() == 0,
        step matches JobStep::Inspect(id) ==> id@ == all@[0]@,
{
}

/// A tick looks at all containers of a deleted deployment, whose stopped ones
/// have to go too, and at the active ones of any other.
pub proof fn law_deleted_deployment_is_listed_whole(status: DeploymentStatus, r: &'static str)
    requires
        call_ensures(status_filter, (status,), r),
    ensures
        r@ == "all"@ <==> status == DeploymentStatus::Deleted,
        r@ == "active"@ <==> status != DeploymentStatus::Deleted,
{
    reveal_strlit("all");
    reveal_strlit("active");
    assert("all"@.len() != "active"@.len());
}

/// The removal of all containers is told of exactly where there were any, with how
/// many; nothing else changes.
pub proof fn law_removal_is_told(d: &mut Deployment, kind: &str, r: ())
    requires
        call_ensures(remove_all_instances, (d, kind), r),
    ensures
        old(d).instances@.len() == 0 ==> final(d).log() == old(d).log(),
        old(d).instances@.len() > 0 ==> {
            &&& final(d).log().len() == old(d).log().len() + 1
            &&& final(d).log().last().level == "info"@
            &&& final(d).log().last().reason == Some("container_deletion"@)
            &&& ("Deleted "@ + decimal(old(d).instances@.len())).is_prefix_of(
                final(d).log().last().message,
            )
        },
        final(d).status == old(d).status,
        final(d).restart_count == old(d).restart_count,
        final(d).instances == old(d).instances,
{
    if old(d).instances@.len() > 0 {
        let head = "Deleted "@ + decimal(old(d).instances@.len());
        let text = final(d).log().last().message;
        assert(text.subrange(0, head.len() as int) =~= head);
    }
}

/// An exit counts, up to the first that no restart mends and with that one: one more
/// exit at the front is counted, and hides those behind it exactly where its code is
/// that of a command that cannot be run.
pub proof fn law_counting_ends_at_a_fatal_exit(
    exited: &Vec<(String, Option<i64>)>,
    more: &Vec<(String, Option<i64>)>,
    front: (String, Option<i64>),
    r: usize,
    after: usize,
)
    requires
        more@ == seq![front] + exited@,
        call_ensures(count_exits, (exited,), r),
        call_ensures(count_exits, (more,), after),
    ensures
        exited@.len() == 0 ==> r == 0,
        front.1 == Some(126i64) || front.1 == Some(127i64) ==> after == 1,
        front.1 != Some(126i64) && front.1 != Some(127i64) ==> after == r + 1,
{
    assert(more@[0] == front);
    assert(more@.skip(1) =~= exited@);
}

/// What a failed creation is reported under, and what the report names: the image,
/// the namespace, the port or the detail that is known.
pub proof fn law_create_error_has_its_reason(
    deployment: &mut Deployment,
    err: RuntimeError,
    increment_restart: bool,
)
    requires
        call_ensures(handle_create_error, (deployment, err, increment_restart), ()),
    ensures
        ({
            let said = final(deployment).log().last();
            let reason = said.reason;
            &&& err is ImageNotFound || err is ImagePullFailed ==> reason == Some(
                "image_pull_back_off"@,
            ) && contains(said.message, old(deployment).image@)
            &&& err is InstanceCreationFailed ==> reason == Some("instance_creation_failed"@)
            &&& err is NetworkCreationFailed ==> reason == Some("network_creation_failed"@)
            &&& err is ConfigNotFound || err is ConfigKeyNotFound ==> reason == Some(
                "config_error"@,
            )
            &&& err is NetworkCreationFailed || err is ConfigNotFound || err is ConfigKeyNotFound
                ==> contains(said.message, old(deployment).namespace@)
            &&& err is StatsFetchFailed ==> reason == Some("stats_fetch_failed"@)
            &&& err is InsufficientResources ==> reason == Some("insufficient_resources"@)
            &&& err is Other || err is Json ==> reason == Some("runtime_error"@)
            &&& err is FirmwareNotFound ==> reason == Some("firmware_not_found"@)
            &&& err is VmStartFailed ==> reason == Some("vm_start_failed"@)
            &&& err is Io ==> reason == Some("file_system_error"@)
            &&& err matches RuntimeError::PortAlreadyInUse(p) ==> reason == Some(
                "port_allocation_failed"@,
            ) && contains(said.message, decimal(p as nat))
            &&& err matches RuntimeError::Other(msg) ==> msg@.is_suffix_of(said.message)
        }),
{
    let m = final(deployment).log().last().message;
    let image = old(deployment).image@;
    let space = old(deployment).namespace@;
    match err {
        RuntimeError::ImageNotFound(_) => {
            lemma_held(m, image, "Image '"@.len() as int);
        },
        RuntimeError::ImagePullFailed(_) => {
            lemma_held(m, image, "Failed to pull image '"@.len() as int);
        },
        RuntimeError::NetworkCreationFailed(_) => {
            lemma_held(m, space, "Failed to create network for namespace '"@.len() as int);
        },
        RuntimeError::ConfigNotFound(_) => {
            lemma_held(m, space, "Config not found in namespace '"@.len() as int);
        },
        RuntimeError::ConfigKeyNotFound(_) => {
            lemma_held(m, space, "Config key not found in namespace '"@.len() as int);
        },
        RuntimeError::PortAlreadyInUse(p) => {
            lemma_held(m, decimal(p as nat), "Port "@.len() as int);
        },
        RuntimeError::Other(msg) => {
            assert(m.subrange(m.len() - msg@.len(), m.len() as int) =~= msg@);
        },
        _ => {},
    }
}

/// What stands at a place of a text is held by it.
proof fn lemma_held(s: Seq<char>, part: Seq<char>, k: int)
    requires
        0 <= k && k + part.len() <= s.len(),
        s.subrange(k, k + part.len()) =~= part,
    ensures
        contains(s, part),
{
    assert(occurs_at(s, part, k));
}

/// What happens to a worker is told under the name of what happened: a start with
/// the number of containers that there are then, and a container that does not stay
/// up as a warning.
pub proof fn law_worker_events_are_told(
    d: &mut Deployment,
    current: usize,
    r: WorkerAction,
    other: &mut Deployment,
    status: &InstanceStatus,
)
    requires
        current < usize::MAX,
        call_ensures(worker_created, (d, current), r),
        call_ensures(worker_inspected, (other, status), ()),
    ensures
        final(d).log().last().level == "info"@,
        final(d).log().last().reason == Some("scale_up"@),
        contains(
            final(d).log().last().message,
            decimal(current as nat) + " to "@ + decimal((current + 1) as nat),
        ),
        *status == InstanceStatus::Running ==> final(other).log() == old(other).log(),
        *status != InstanceStatus::Running ==> final(other).log().len() == old(other).log().len() + 1
            && final(other).log().last().level == "warning"@ && final(other).log().last().reason
            == Some("liveness_unconfirmed"@),
{
    let m = final(d).log().last().message;
    lemma_held(
        m,
        decimal(current as nat) + " to "@ + decimal((current + 1) as nat),
        "Scaled up from "@.len() as int,
    );
}

/// Every exit that counts is told as an error, with the beginning of the container's
/// id and the number that the restart has; one that no restart mends is told once
/// more, with its code, and is the last.
pub proof fn law_exits_are_told_one_by_one(
    d: &mut Deployment,
    exited: &Vec<(String, Option<i64>)>,
    counted: usize,
    i: int,
    id: &str,
    short: String,
    r: bool,
)
    requires
        call_ensures(count_exits, (exited,), counted),
        call_ensures(apply_unexpected_exits, (d, exited), r),
        0 <= i < counted,
        counted <= exited@.len(),
        id@ == exited@[i].0@,
        cuts_cleanly(id@, 12),
        call_ensures(first_bytes, (id, 12), short),
    ensures
        final(d).log().len() >= old(d).log().len() + counted,
        ({
            let told = final(d).log()[old(d).log().len() + i];
            &&& told.level == "error"@
            &&& told.reason == Some("container_crashed"@)
            &&& ("Container "@ + short@).is_prefix_of(told.message)
            &&& contains(
                told.message,
                "(restart "@ + decimal((old(d).restart_count + i + 1) as nat) + ")"@,
            )
        }),
        final(d).log().len() > old(d).log().len() + counted ==> final(d).log().last().reason
            == Some("non_retryable_exit"@),
{
    let told = final(d).log()[old(d).log().len() + i];
    let n = decimal((old(d).restart_count + i + 1) as nat);
    assert(told == crash_event(exited@[i].0@, old(d).restart_count + i + 1));
    let head = "Container "@ + short@;
    assert(told.message.subrange(0, head.len() as int) =~= head);
    reveal_strlit(" exited unexpectedly (restart ");
    reveal_strlit("(restart ");
    let mid = " exited unexpectedly (restart "@;
    assert(mid.skip(21) =~= "(restart "@);
    let part = "(restart "@ + n + ")"@;
    let k = head.len() + 21;
    assert(told.message =~= head + mid.take(21) + part) by {
        assert(mid =~= mid.take(21) + "(restart "@);
    }
    lemma_held(told.message, part, k as int);
}

} // verus!
