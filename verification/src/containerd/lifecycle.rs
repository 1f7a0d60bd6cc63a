//! What a tick does with the containers of a deployment, and the steps that
//! create a container and take it down.
use vstd::prelude::*;
use vstd::utf8::encode_utf8;
use crate::containerd::cni::netns_path;
use crate::containerd::instances::{TaskStatus, law_listing_all_is_complete, listed};
use crate::containerd::logs::{log_file, log_file_text};
use crate::docker::lifecycle::{JobAction, JobStepView, is_starting, job_step};
use crate::error::{RuntimeError, RuntimeErrorView, error_text};
use crate::foreign::{hex_encode, hex_text, sha256, sha256_digest};
use crate::models::{Deployment, DeploymentStatus, EventView, MAX_RESTART_COUNT, ResolvedMount, event};
use crate::steps::{Run, advanced, fresh, lemma_run_ends, lemma_run_keeps, run_on};
use crate::text::{cat2, cat3, cat4, cat5, cat7, contains, decimal, decimal_u64, occurs_at, str_pairs};

verus! {

/// The part of the system that events are reported under.
pub const COMPONENT: &'static str = "containerd";

/// The signal that asks a process to end.
pub const SIGTERM: u32 = 15;

/// The signal that ends a process.
pub const SIGKILL: u32 = 9;

/// How long a process is given to end, in seconds.
pub const STOP_GRACE_SECONDS: u64 = 10;

/// The directory of a deployment's rendered files.
pub open spec fn config_dir_text(deployment_id: Seq<char>) -> Seq<char> {
    "/var/lib/ring/configs/"@ + deployment_id
}

/// The directory of a deployment's rendered files.
pub fn config_dir(deployment_id: &str) -> (r: String)
    ensures
        r@ == config_dir_text(deployment_id@),
{
    cat2("/var/lib/ring/configs/", deployment_id)
}

/// The log file of an instance.
pub fn log_path(instance_id: &str) -> (r: String)
    ensures
        r@ == log_file_text(instance_id@),
{
    log_file(instance_id)
}

// ---------------------------------------------------------------------------
// Ticks
// ---------------------------------------------------------------------------

/// Record that the daemon could not be reached.
pub fn connect_failed(deployment: &mut Deployment, e: &RuntimeError)
    ensures
        final(deployment).status == DeploymentStatus::Error,
        final(deployment).log() == old(deployment).log().push(
            event(
                "error"@,
                "containerd unreachable: "@ + error_text(e@),
                "containerd"@,
                "runtime_error"@,
            ),
        ),
        *final(deployment) == (Deployment {
            status: final(deployment).status,
            pending_events: final(deployment).pending_events,
            ..*old(deployment)
        }),
{
    deployment.status = DeploymentStatus::Error;
    let text = e.message();
    deployment.emit_event(
        "error",
        cat2("containerd unreachable: ", text.as_str()),
        COMPONENT,
        "runtime_error",
    );
}

/// The events after all instances of a deleted deployment were taken down.
pub open spec fn log_after_teardown(d: &Deployment, kind: Seq<char>) -> Seq<EventView> {
    if d.instances.len() > 0 {
        d.log().push(
            event(
                "info"@,
                "Deleted "@ + decimal(d.instances.len() as nat) + " instance(s) for "@ + kind
                    + " marked as deleted"@,
                "containerd"@,
                "container_deletion"@,
            ),
        )
    } else {
        d.log()
    }
}

/// Report the removal of all instances of a deployment that is deleted.
pub fn remove_all(deployment: &mut Deployment, kind: &str)
    ensures
        final(deployment).log() == log_after_teardown(old(deployment), kind@),
        *final(deployment) == (Deployment {
            pending_events: final(deployment).pending_events,
            ..*old(deployment)
        }),
{
    let count: usize = deployment.instances.len();
    if count > 0 {
        let text = decimal_u64(count as u64);
        deployment.emit_event(
            "info",
            cat5("Deleted ", text.as_str(), " instance(s) for ", kind, " marked as deleted"),
            COMPONENT,
            "container_deletion",
        );
    }
}

/// Begin a job's tick. A job that has ended stays as it is; one that has spent
/// its restart budget has failed.
pub fn job_begin(deployment: &mut Deployment) -> (r: JobAction)
    ensures
        ({
            let status = old(deployment).status;
            let ended = status == DeploymentStatus::Completed || status
                == DeploymentStatus::Failed;
            &&& r == if status == DeploymentStatus::Deleted {
                JobAction::RemoveAll
            } else if ended || old(deployment).restart_count >= MAX_RESTART_COUNT {
                JobAction::Done
            } else {
                JobAction::FindInstance
            }
            &&& final(deployment).status == if status != DeploymentStatus::Deleted && !ended && old(
                deployment,
            ).restart_count >= MAX_RESTART_COUNT {
                DeploymentStatus::Failed
            } else {
                status
            }
            &&& final(deployment).log() == if status == DeploymentStatus::Deleted {
                log_after_teardown(old(deployment), "job"@)
            } else {
                old(deployment).log()
            }
        }),
        *final(deployment) == (Deployment {
            status: final(deployment).status,
            pending_events: final(deployment).pending_events,
            ..*old(deployment)
        }),
{
    if deployment.status == DeploymentStatus::Deleted {
        remove_all(deployment, "job");
        return JobAction::RemoveAll;
    }
    if deployment.status == DeploymentStatus::Completed || deployment.status
        == DeploymentStatus::Failed {
        return JobAction::Done;
    }
    if deployment.restart_count >= MAX_RESTART_COUNT {
        deployment.status = DeploymentStatus::Failed;
        return JobAction::Done;
    }
    JobAction::FindInstance
}

/// The status of a job, given the state of its task and the code that it ended
/// with.
pub open spec fn job_task_status(status: Option<TaskStatus>, exit: Option<u32>) -> DeploymentStatus {
    match status {
        Some(TaskStatus::Running) | Some(TaskStatus::Paused) => DeploymentStatus::Running,
        Some(TaskStatus::Stopped) => if exit == Some(0u32) {
            DeploymentStatus::Completed
        } else {
            DeploymentStatus::Failed
        },
        _ => DeploymentStatus::Failed,
    }
}

/// End a job's tick with the state of its task. The exit code only matters
/// where the task has stopped.
pub fn job_task_seen(deployment: &mut Deployment, status: Option<TaskStatus>, exit: Option<u32>)
    ensures
        *final(deployment) == (Deployment {
            status: job_task_status(status, exit),
            ..*old(deployment)
        }),
{
    deployment.status = match status {
        Some(TaskStatus::Running) => DeploymentStatus::Running,
        Some(TaskStatus::Paused) => DeploymentStatus::Running,
        Some(TaskStatus::Stopped) => match exit {
            Some(code) => if code == 0 {
                DeploymentStatus::Completed
            } else {
                DeploymentStatus::Failed
            },
            None => DeploymentStatus::Failed,
        },
        _ => DeploymentStatus::Failed,
    };
}

/// What is to be done next for a worker.
#[derive(Debug)]
pub enum FleetStep {
    /// The tick is over.
    Done,
    /// Take down every instance and remove the rendered files. The tick is
    /// over.
    RemoveAll,
    /// Create one instance and report the result.
    Create,
    /// Take this instance down. The tick is over.
    Remove(String),
}

/// A [`FleetStep`] by its contents.
pub enum FleetStepView {
    Done,
    RemoveAll,
    Create,
    Remove(Seq<char>),
}

impl View for FleetStep {
    type V = FleetStepView;

    open spec fn view(&self) -> FleetStepView {
        match *self {
            FleetStep::Done => FleetStepView::Done,
            FleetStep::RemoveAll => FleetStepView::RemoveAll,
            FleetStep::Create => FleetStepView::Create,
            FleetStep::Remove(id) => FleetStepView::Remove(id@),
        }
    }
}

/// What a worker's tick does.
pub open spec fn fleet_step(d: &Deployment) -> FleetStepView {
    if d.status == DeploymentStatus::Deleted {
        FleetStepView::RemoveAll
    } else if d.restart_count >= MAX_RESTART_COUNT || d.status
        == DeploymentStatus::CrashLoopBackOff {
        FleetStepView::Done
    } else if d.instances.len() < d.replicas {
        FleetStepView::Create
    } else if d.instances.len() > d.replicas {
        FleetStepView::Remove(d.instances@[0]@)
    } else {
        FleetStepView::Done
    }
}

/// The report of an instance that was taken down to scale down.
pub open spec fn fleet_down_event(count: int, id: Seq<char>) -> EventView {
    event(
        "info"@,
        "Scaled down from "@ + decimal(count as nat) + " to "@ + decimal((count - 1) as nat)
            + " replicas (removed "@ + id + ")"@,
        "containerd"@,
        "scale_down"@,
    )
}

/// Decide a worker's tick: a deleted worker loses its instances; one that has
/// spent its restart budget is left alone; otherwise the number of instances
/// moves by one towards the declared one.
pub fn worker_begin(deployment: &mut Deployment) -> (r: FleetStep)
    ensures
        r@ == fleet_step(old(deployment)),
        final(deployment).status == if old(deployment).status != DeploymentStatus::Deleted && old(
            deployment,
        ).restart_count >= MAX_RESTART_COUNT {
            DeploymentStatus::CrashLoopBackOff
        } else {
            old(deployment).status
        },
        final(deployment).instances@ == if r@ is Remove {
            old(deployment).instances@.skip(1)
        } else {
            old(deployment).instances@
        },
        final(deployment).log() == if r@ is RemoveAll {
            log_after_teardown(old(deployment), "worker"@)
        } else if r@ is Remove {
            old(deployment).log().push(
                fleet_down_event(
                    old(deployment).instances.len() as int,
                    old(deployment).instances@[0]@,
                ),
            )
        } else {
            old(deployment).log()
        },
        *final(deployment) == (Deployment {
            status: final(deployment).status,
            instances: final(deployment).instances,
            pending_events: final(deployment).pending_events,
            ..*old(deployment)
        }),
{
    if deployment.status == DeploymentStatus::Deleted {
        remove_all(deployment, "worker");
        return FleetStep::RemoveAll;
    }
    if deployment.restart_count >= MAX_RESTART_COUNT {
        deployment.status = DeploymentStatus::CrashLoopBackOff;
        return FleetStep::Done;
    }
    if deployment.status == DeploymentStatus::CrashLoopBackOff {
        return FleetStep::Done;
    }
    let current: usize = deployment.instances.len();
    let target: usize = deployment.replicas as usize;
    if current < target {
        return FleetStep::Create;
    }
    if current > target {
        let id = deployment.instances.remove(0);
        assert(deployment.instances@ =~= old(deployment).instances@.skip(1));
        let from = decimal_u64(current as u64);
        let to = decimal_u64((current - 1) as u64);
        deployment.emit_event(
            "info",
            cat7(
                "Scaled down from ",
                from.as_str(),
                " to ",
                to.as_str(),
                " replicas (removed ",
                id.as_str(),
                ")",
            ),
            COMPONENT,
            "scale_down",
        );
        return FleetStep::Remove(id);
    }
    FleetStep::Done
}

/// The report of an instance that was created to scale up.
pub open spec fn fleet_up_event(count: int) -> EventView {
    event(
        "info"@,
        "Scaled up from "@ + decimal(count as nat) + " to "@ + decimal((count + 1) as nat)
            + " replicas"@,
        "containerd"@,
        "scale_up"@,
    )
}

/// End a worker's tick after an instance was created. `current` is the number of
/// instances before it.
pub fn worker_created(deployment: &mut Deployment, current: usize)
    requires
        current < usize::MAX,
    ensures
        final(deployment).log() == old(deployment).log().push(fleet_up_event(current as int)),
        final(deployment).status == if is_starting(old(deployment).status) {
            DeploymentStatus::Running
        } else {
            old(deployment).status
        },
        *final(deployment) == (Deployment {
            status: final(deployment).status,
            pending_events: final(deployment).pending_events,
            ..*old(deployment)
        }),
{
    let from = decimal_u64(current as u64);
    let to = decimal_u64((current + 1) as u64);
    deployment.emit_event(
        "info",
        cat5("Scaled up from ", from.as_str(), " to ", to.as_str(), " replicas"),
        COMPONENT,
        "scale_up",
    );
    if deployment.status == DeploymentStatus::Pending || deployment.status
        == DeploymentStatus::Creating {
        deployment.status = DeploymentStatus::Running;
    }
}

/// The status that a failed creation leaves, the reason and the message that
/// are reported.
pub open spec fn failure_report(d: &Deployment, e: RuntimeErrorView) -> (
    DeploymentStatus,
    Seq<char>,
    Seq<char>,
) {
    match e {
        RuntimeErrorView::ImageNotFound(detail) => (
            DeploymentStatus::ImagePullBackOff,
            "image_pull_back_off"@,
            "Image '"@ + d.image@ + "' not found: "@ + detail,
        ),
        RuntimeErrorView::ImagePullFailed(detail) => (
            DeploymentStatus::ImagePullBackOff,
            "image_pull_back_off"@,
            "Failed to pull image '"@ + d.image@ + "': "@ + detail,
        ),
        RuntimeErrorView::InstanceCreationFailed(msg) => (
            DeploymentStatus::CreateContainerError,
            "instance_creation_failed"@,
            "Instance creation failed: "@ + msg,
        ),
        RuntimeErrorView::InsufficientResources(detail) => (
            DeploymentStatus::InsufficientResources,
            "insufficient_resources"@,
            detail,
        ),
        _ => (
            DeploymentStatus::Error,
            "runtime_error"@,
            "containerd error: "@ + error_text(e),
        ),
    }
}

/// Record a failed creation: the status that names the kind of failure, one
/// event, and, where `increment_restart` says so, one restart.
pub fn handle_create_error(deployment: &mut Deployment, err: RuntimeError, increment_restart: bool)
    requires
        increment_restart ==> old(deployment).restart_count < u32::MAX,
    ensures
        final(deployment).status == failure_report(old(deployment), err@).0,
        final(deployment).restart_count == old(deployment).restart_count + if increment_restart {
            1int
        } else {
            0int
        },
        final(deployment).log() == old(deployment).log().push(
            event(
                "error"@,
                failure_report(old(deployment), err@).2,
                "containerd"@,
                failure_report(old(deployment), err@).1,
            ),
        ),
        *final(deployment) == (Deployment {
            status: final(deployment).status,
            restart_count: final(deployment).restart_count,
            pending_events: final(deployment).pending_events,
            ..*old(deployment)
        }),
{
    if increment_restart {
        deployment.restart_count = deployment.restart_count + 1;
    }
    let (status, reason, message): (DeploymentStatus, &str, String) = match &err {
        RuntimeError::ImageNotFound(detail) => (
            DeploymentStatus::ImagePullBackOff,
            "image_pull_back_off",
            cat4("Image '", deployment.image.as_str(), "' not found: ", detail.as_str()),
        ),
        RuntimeError::ImagePullFailed(detail) => (
            DeploymentStatus::ImagePullBackOff,
            "image_pull_back_off",
            cat4("Failed to pull image '", deployment.image.as_str(), "': ", detail.as_str()),
        ),
        RuntimeError::InstanceCreationFailed(msg) => (
            DeploymentStatus::CreateContainerError,
            "instance_creation_failed",
            cat2("Instance creation failed: ", msg.as_str()),
        ),
        RuntimeError::InsufficientResources(detail) => (
            DeploymentStatus::InsufficientResources,
            "insufficient_resources",
            detail.clone(),
        ),
        _ => {
            let text = err.message();
            (
                DeploymentStatus::Error,
                "runtime_error",
                cat2("containerd error: ", text.as_str()),
            )
        },
    };
    deployment.status = status;
    deployment.emit_event("error", message, COMPONENT, reason);
}

// ---------------------------------------------------------------------------
// Rendered files
// ---------------------------------------------------------------------------

/// The file that holds a rendered content: it is named by the hash of the
/// content, so the same content has the same file after a restart.
pub open spec fn config_file_text(deployment_id: Seq<char>, content: Seq<char>) -> Seq<char> {
    config_dir_text(deployment_id) + "/"@ + hex_text(sha256(encode_utf8(content)))
}

/// The file that holds a rendered content.
pub fn config_file(deployment_id: &str, content: &str) -> (r: String)
    ensures
        r@ == config_file_text(deployment_id@, content@),
{
    let dir = config_dir(deployment_id);
    let hash = sha256_digest(content.as_bytes());
    let name = hex_encode(hash.as_slice());
    cat3(dir.as_str(), "/", name.as_str())
}

/// The files of the rendered contents among the volumes, with their
/// destinations, in the order of the volumes.
pub open spec fn config_file_list(deployment_id: Seq<char>, mounts: Seq<ResolvedMount>) -> Seq<
    (Seq<char>, Seq<char>),
>
    decreases mounts.len(),
{
    if mounts.len() == 0 {
        seq![]
    } else {
        let rest = config_file_list(deployment_id, mounts.drop_last());
        match mounts.last() {
            ResolvedMount::Content { content, destination } => rest.push(
                (config_file_text(deployment_id, content@), destination@),
            ),
            _ => rest,
        }
    }
}

/// The files of the rendered contents among the volumes, with their
/// destinations.
pub fn config_files(deployment_id: &str, mounts: &Vec<ResolvedMount>) -> (r: Vec<(String, String)>)
    ensures
        str_pairs(r@) == config_file_list(deployment_id@, mounts@),
{
    let mut out: Vec<(String, String)> = Vec::new();
    let mut i: usize = 0;
    assert(str_pairs(out@) =~= config_file_list(deployment_id@, mounts@.take(0)));
    while i < mounts.len()
        invariant
            i <= mounts.len(),
            str_pairs(out@) == config_file_list(deployment_id@, mounts@.take(i as int)),
        decreases mounts.len() - i,
    {
        assert(mounts@.take(i + 1).drop_last() =~= mounts@.take(i as int));
        let ghost before = out@;
        if let ResolvedMount::Content { content, destination } = &mounts[i] {
            let file = config_file(deployment_id, content.as_str());
            let entry = (file, destination.clone());
            out.push(entry);
            assert(str_pairs(out@) =~= str_pairs(before).push((entry.0@, entry.1@)));
        }
        i += 1;
    }
    assert(mounts@.take(mounts.len() as int) =~= mounts@);
    out
}

// ---------------------------------------------------------------------------
// Creating an instance
// ---------------------------------------------------------------------------

/// A step of a creation.
#[derive(Clone, Copy, Debug, PartialEq, Eq, Structural)]
pub enum InstanceStep {
    /// Compare the memory that is needed with what the host has.
    CheckMemory,
    /// See that the image is there and unpacked.
    EnsureImage,
    /// Make a writable snapshot of the image's layers.
    PrepareSnapshot,
    /// Write the rendered files.
    WriteFiles,
    /// Register the container.
    CreateContainer,
    /// Create the container's task.
    CreateTask,
    /// Put an interface into the task's network namespace. That it fails does
    /// not matter.
    AttachNetwork,
    /// Start the task.
    StartTask,
    /// The instance is up.
    Created,
    /// The creation failed; what has to be undone is undone.
    Failed,
}

/// The step that follows, given whether the last one succeeded.
pub open spec fn instance_next(step: InstanceStep, ok: bool) -> InstanceStep {
    match step {
        InstanceStep::AttachNetwork => InstanceStep::StartTask,
        InstanceStep::Created => InstanceStep::Created,
        _ => if !ok {
            InstanceStep::Failed
        } else {
            match step {
                InstanceStep::CheckMemory => InstanceStep::EnsureImage,
                InstanceStep::EnsureImage => InstanceStep::PrepareSnapshot,
                InstanceStep::PrepareSnapshot => InstanceStep::WriteFiles,
                InstanceStep::WriteFiles => InstanceStep::CreateContainer,
                InstanceStep::CreateContainer => InstanceStep::CreateTask,
                InstanceStep::CreateTask => InstanceStep::AttachNetwork,
                InstanceStep::StartTask => InstanceStep::Created,
                _ => InstanceStep::Failed,
            }
        },
    }
}

/// The step that follows, given whether the last one succeeded.
pub fn next_instance_step(step: InstanceStep, ok: bool) -> (r: InstanceStep)
    ensures
        r == instance_next(step, ok),
{
    if step == InstanceStep::AttachNetwork {
        return InstanceStep::StartTask;
    }
    if step == InstanceStep::Created {
        return InstanceStep::Created;
    }
    if !ok {
        return InstanceStep::Failed;
    }
    match step {
        InstanceStep::CheckMemory => InstanceStep::EnsureImage,
        InstanceStep::EnsureImage => InstanceStep::PrepareSnapshot,
        InstanceStep::PrepareSnapshot => InstanceStep::WriteFiles,
        InstanceStep::WriteFiles => InstanceStep::CreateContainer,
        InstanceStep::CreateContainer => InstanceStep::CreateTask,
        InstanceStep::CreateTask => InstanceStep::AttachNetwork,
        InstanceStep::StartTask => InstanceStep::Created,
        _ => InstanceStep::Failed,
    }
}

/// Something that a creation makes and has to undo when it fails.
#[derive(Clone, Copy, Debug, PartialEq, Eq, Structural)]
pub enum InstancePart {
    Snapshot,
    Container,
    Task,
    Interface,
}

/// What is undone after a step failed, in this order: the reverse of the order
/// in which it was made.
pub open spec fn instance_undo(step: InstanceStep) -> Seq<InstancePart> {
    match step {
        InstanceStep::WriteFiles | InstanceStep::CreateContainer => seq![InstancePart::Snapshot],
        InstanceStep::CreateTask => seq![InstancePart::Container, InstancePart::Snapshot],
        InstanceStep::StartTask => seq![
            InstancePart::Interface,
            InstancePart::Task,
            InstancePart::Container,
            InstancePart::Snapshot,
        ],
        _ => seq![],
    }
}

/// What is undone after a step failed, in this order.
pub fn undo_after(step: InstanceStep) -> (r: Vec<InstancePart>)
    ensures
        r@ == instance_undo(step),
{
    let mut out: Vec<InstancePart> = Vec::new();
    match step {
        InstanceStep::WriteFiles => {
            out.push(InstancePart::Snapshot);
        },
        InstanceStep::CreateContainer => {
            out.push(InstancePart::Snapshot);
        },
        InstanceStep::CreateTask => {
            out.push(InstancePart::Container);
            out.push(InstancePart::Snapshot);
        },
        InstanceStep::StartTask => {
            out.push(InstancePart::Interface);
            out.push(InstancePart::Task);
            out.push(InstancePart::Container);
            out.push(InstancePart::Snapshot);
        },
        _ => {},
    }
    assert(out@ =~= instance_undo(step));
    out
}

/// What a failed step is reported as, where the step itself says it. `detail`
/// is the text of the error behind it. Steps whose own error is handed on are
/// left to the caller.
pub open spec fn instance_failure(step: InstanceStep, id: Seq<char>, detail: Seq<char>) -> RuntimeErrorView {
    match step {
        InstanceStep::PrepareSnapshot => RuntimeErrorView::InstanceCreationFailed(
            "PrepareSnapshot failed for "@ + id + ": "@ + detail,
        ),
        InstanceStep::CreateContainer => RuntimeErrorView::InstanceCreationFailed(
            "CreateContainer failed for "@ + id + ": "@ + detail,
        ),
        InstanceStep::CreateTask => RuntimeErrorView::InstanceCreationFailed(
            "CreateTask failed for "@ + id + ": "@ + detail,
        ),
        InstanceStep::StartTask => RuntimeErrorView::InstanceCreationFailed(
            "StartTask failed for "@ + id + ": "@ + detail,
        ),
        _ => RuntimeErrorView::Io(detail),
    }
}

/// What a failed step is reported as.
pub fn instance_error_for(step: InstanceStep, instance_id: &str, detail: &str) -> (r: RuntimeError)
    ensures
        r@ == instance_failure(step, instance_id@, detail@),
{
    match step {
        InstanceStep::PrepareSnapshot => RuntimeError::InstanceCreationFailed(
            cat4("PrepareSnapshot failed for ", instance_id, ": ", detail),
        ),
        InstanceStep::CreateContainer => RuntimeError::InstanceCreationFailed(
            cat4("CreateContainer failed for ", instance_id, ": ", detail),
        ),
        InstanceStep::CreateTask => RuntimeError::InstanceCreationFailed(
            cat4("CreateTask failed for ", instance_id, ": ", detail),
        ),
        InstanceStep::StartTask => RuntimeError::InstanceCreationFailed(
            cat4("StartTask failed for ", instance_id, ": ", detail),
        ),
        _ => RuntimeError::Io(detail.to_owned()),
    }
}

/// Where the output of an instance goes.
pub fn stdio_uri(instance_id: &str) -> (r: String)
    ensures
        r@ == "file://"@ + log_file_text(instance_id@),
{
    let file = log_path(instance_id);
    cat2("file://", file.as_str())
}

/// Record the image of an instance that is being created.
pub fn record_image_digest(deployment: &mut Deployment, digest: String)
    ensures
        *final(deployment) == (Deployment { image_digest: Some(digest), ..*old(deployment) }),
{
    deployment.image_digest = Some(digest);
}

/// Record an instance that was created.
pub fn record_instance(deployment: &mut Deployment, instance_id: String)
    ensures
        final(deployment).instances@ == old(deployment).instances@.push(instance_id),
        *final(deployment) == (Deployment {
            instances: final(deployment).instances,
            ..*old(deployment)
        }),
{
    deployment.instances.push(instance_id);
}

// ---------------------------------------------------------------------------
// Taking an instance down
// ---------------------------------------------------------------------------

/// A step of taking an instance down.
#[derive(Clone, Copy, Debug, PartialEq, Eq, Structural)]
pub enum TeardownStep {
    /// Send a signal to all processes.
    Signal(u32),
    /// Wait this many seconds at most until the task ends.
    WaitUpTo(u64),
    DetachNetwork,
    DeleteTask,
    DeleteContainer,
    RemoveSnapshot,
    RemoveLog,
}

/// The steps of taking an instance down. What each of them comes to does not
/// matter.
pub open spec fn teardown_order() -> Seq<TeardownStep> {
    seq![
        TeardownStep::Signal(15),
        TeardownStep::WaitUpTo(10),
        TeardownStep::Signal(9),
        TeardownStep::DetachNetwork,
        TeardownStep::DeleteTask,
        TeardownStep::DeleteContainer,
        TeardownStep::RemoveSnapshot,
        TeardownStep::RemoveLog,
    ]
}

/// The steps of taking an instance down: it is asked to end and given time
/// before it is killed, and then what was made for it goes.
pub fn teardown_steps() -> (r: Vec<TeardownStep>)
    ensures
        r@ == teardown_order(),
{
    let mut out: Vec<TeardownStep> = Vec::new();
    out.push(TeardownStep::Signal(SIGTERM));
    out.push(TeardownStep::WaitUpTo(STOP_GRACE_SECONDS));
    out.push(TeardownStep::Signal(SIGKILL));
    out.push(TeardownStep::DetachNetwork);
    out.push(TeardownStep::DeleteTask);
    out.push(TeardownStep::DeleteContainer);
    out.push(TeardownStep::RemoveSnapshot);
    out.push(TeardownStep::RemoveLog);
    assert(out@ =~= teardown_order());
    out
}

/// The network namespace that is named when an interface is removed: that of
/// the process, or none where the process is gone. The address is freed either
/// way.
pub fn teardown_netns(pid: Option<u32>) -> (r: String)
    ensures
        r@ == match pid {
            Some(n) => "/proc/"@ + decimal(n as nat) + "/ns/net"@,
            None => Seq::empty(),
        },
{
    match pid {
        Some(n) => netns_path(n),
        None => String::new(),
    }
}

// ---------------------------------------------------------------------------
// Laws
// ---------------------------------------------------------------------------

/// Whether a part exists while a step is taken.
pub open spec fn part_exists(part: InstancePart, step: InstanceStep) -> bool {
    match part {
        InstancePart::Snapshot => step is WriteFiles || step is CreateContainer || step
            is CreateTask || step is AttachNetwork || step is StartTask || step is Created,
        InstancePart::Container => step is CreateTask || step is AttachNetwork || step is StartTask
            || step is Created,
        InstancePart::Task => step is AttachNetwork || step is StartTask || step is Created,
        InstancePart::Interface => step is StartTask || step is Created,
    }
}

/// A creation that fails leaves nothing behind: every part that exists when a
/// step fails is undone after it.
pub proof fn law_failed_instance_leaves_nothing(step: InstanceStep, part: InstancePart)
    requires
        instance_next(step, false) is Failed,
        part_exists(part, step),
    ensures
        instance_undo(step).contains(part),
{
    let undo = instance_undo(step);
    match step {
        InstanceStep::WriteFiles => {
            assert(undo[0] == InstancePart::Snapshot);
        },
        InstanceStep::CreateContainer => {
            assert(undo[0] == InstancePart::Snapshot);
        },
        InstanceStep::CreateTask => {
            assert(undo[0] == InstancePart::Container);
            assert(undo[1] == InstancePart::Snapshot);
        },
        InstanceStep::StartTask => {
            assert(undo[0] == InstancePart::Interface);
            assert(undo[1] == InstancePart::Task);
            assert(undo[2] == InstancePart::Container);
            assert(undo[3] == InstancePart::Snapshot);
        },
        _ => {},
    }
}

/// Parts only come to exist by the step that makes them, and only where it
/// succeeds.
pub proof fn law_parts_are_made_by_their_steps(step: InstanceStep, ok: bool, part: InstancePart)
    requires
        !part_exists(part, step),
        part_exists(part, instance_next(step, ok)),
    ensures
        match part {
            InstancePart::Snapshot => step is PrepareSnapshot && ok,
            InstancePart::Container => step is CreateContainer && ok,
            InstancePart::Task => step is CreateTask && ok,
            InstancePart::Interface => step is AttachNetwork,
        },
{
}

/// How many steps a creation can still take.
pub open spec fn instance_rank(step: InstanceStep) -> nat {
    match step {
        InstanceStep::CheckMemory => 8,
        InstanceStep::EnsureImage => 7,
        InstanceStep::PrepareSnapshot => 6,
        InstanceStep::WriteFiles => 5,
        InstanceStep::CreateContainer => 4,
        InstanceStep::CreateTask => 3,
        InstanceStep::AttachNetwork => 2,
        InstanceStep::StartTask => 1,
        InstanceStep::Created => 0,
        InstanceStep::Failed => 0,
    }
}

/// A creation comes to an end.
pub proof fn law_instance_creation_ends(step: InstanceStep, ok: bool)
    ensures
        !(step is Created) && !(step is Failed) ==> instance_rank(instance_next(step, ok))
            < instance_rank(step),
{
}

/// Taking an instance down undoes every part that creating it made.
pub proof fn law_teardown_removes_every_part()
    ensures
        teardown_order().contains(TeardownStep::RemoveSnapshot),
        teardown_order().contains(TeardownStep::DeleteContainer),
        teardown_order().contains(TeardownStep::DeleteTask),
        teardown_order().contains(TeardownStep::DetachNetwork),
{
    let steps = teardown_order();
    assert(steps[3] == TeardownStep::DetachNetwork);
    assert(steps[4] == TeardownStep::DeleteTask);
    assert(steps[5] == TeardownStep::DeleteContainer);
    assert(steps[6] == TeardownStep::RemoveSnapshot);
}

/// A worker's tick moves the number of instances by at most one, towards the
/// declared number, and only while the restart budget lasts.
pub proof fn law_fleet_moves_towards_target(d: &Deployment)
    ensures
        fleet_step(d) is Create ==> d.instances.len() < d.replicas && d.restart_count
            < MAX_RESTART_COUNT,
        fleet_step(d) is Remove ==> d.instances.len() > d.replicas && d.restart_count
            < MAX_RESTART_COUNT,
        fleet_step(d) is RemoveAll <==> d.status == DeploymentStatus::Deleted,
{
}

/// A job that has a container, whatever its task does or did, is never given
/// another one: its first container is looked at.
pub proof fn law_existing_instance_is_never_recreated(
    ids: Seq<Seq<char>>,
    tasks: Seq<(String, i32)>,
)
    requires
        ids.len() > 0,
    ensures
        job_step(listed(ids, tasks, true)) == JobStepView::Inspect(ids[0]),
{
    law_listing_all_is_complete(ids, tasks);
}

/// The place of a step in the order of a creation that goes well; none where one
/// failed.
pub open spec fn instance_place(step: InstanceStep) -> int {
    match step {
        InstanceStep::CheckMemory => 0,
        InstanceStep::EnsureImage => 1,
        InstanceStep::PrepareSnapshot => 2,
        InstanceStep::WriteFiles => 3,
        InstanceStep::CreateContainer => 4,
        InstanceStep::CreateTask => 5,
        InstanceStep::AttachNetwork => 6,
        InstanceStep::StartTask => 7,
        InstanceStep::Created => 8,
        InstanceStep::Failed => -1,
    }
}

/// Whether a creation is over.
pub open spec fn instance_is_over(step: InstanceStep) -> bool {
    step is Created || step is Failed
}

/// A creation from its beginning, after steps with these outcomes.
pub open spec fn instance_run(outcomes: Seq<bool>) -> Run<InstanceStep, bool> {
    run_on(
        |step: InstanceStep, o: bool| instance_next(step, o),
        |step: InstanceStep| instance_is_over(step),
        fresh(InstanceStep::CheckMemory),
        outcomes,
    )
}

/// What was done where a creation stands.
spec fn instance_history(run: Run<InstanceStep, bool>) -> bool {
    let at = instance_place(run.step);
    &&& at > 0 ==> run.done(InstanceStep::CheckMemory)
    &&& at > 1 ==> run.done(InstanceStep::EnsureImage)
    &&& at > 2 ==> run.done(InstanceStep::PrepareSnapshot)
    &&& at > 3 ==> run.done(InstanceStep::WriteFiles)
    &&& at > 4 ==> run.done(InstanceStep::CreateContainer)
    &&& at > 5 ==> run.done(InstanceStep::CreateTask)
    &&& at > 6 ==> run.tried(InstanceStep::AttachNetwork)
    &&& at > 7 ==> run.done(InstanceStep::StartTask)
    &&& at >= 0 ==> forall|s: InstanceStep| #[trigger] run.failed(s) ==> s is AttachNetwork
    &&& run.step is Failed ==> exists|s: InstanceStep| #[trigger]
        run.failed(s) && !(s is AttachNetwork)
}

/// A step keeps the history.
proof fn lemma_instance_history(r: Run<InstanceStep, bool>, o: bool, after: Run<InstanceStep, bool>)
    requires
        instance_history(r),
        !instance_is_over(r.step),
        after.step == instance_next(r.step, o),
        after.seen == r.seen.insert((r.step, o)),
    ensures
        instance_history(after),
{
    assert(forall|s: InstanceStep| #[trigger] after.done(s) <==> r.done(s) || (s == r.step && o));
    assert(forall|s: InstanceStep| #[trigger] after.failed(s) <==> r.failed(s) || (s == r.step && !o));
    assert(forall|s: InstanceStep| #[trigger] after.tried(s) <==> r.tried(s) || s == r.step);
    assert(!o ==> after.failed(r.step));
}

/// However its steps turn out, an instance that is reported as created has its
/// image, its snapshot, its files, its container and its task, made in this order
/// after the look at the memory, an attempt at its network, and its task started
/// after that. Only the network may have failed; any other step that fails is the
/// reason of a failure, and a creation whose other steps succeed is done.
pub proof fn law_created_instance_is_whole(outcomes: Seq<bool>)
    ensures
        ({
            let run = instance_run(outcomes);
            let at = instance_place(run.step);
            &&& at > 0 ==> run.done(InstanceStep::CheckMemory)
            &&& at > 1 ==> run.done(InstanceStep::EnsureImage)
            &&& at > 2 ==> run.done(InstanceStep::PrepareSnapshot)
            &&& at > 3 ==> run.done(InstanceStep::WriteFiles)
            &&& at > 4 ==> run.done(InstanceStep::CreateContainer)
            &&& at > 5 ==> run.done(InstanceStep::CreateTask)
            &&& at > 6 ==> run.tried(InstanceStep::AttachNetwork)
            &&& run.step is Created ==> run.done(InstanceStep::StartTask)
            &&& run.step is Created ==> forall|s: InstanceStep| #[trigger]
                run.failed(s) ==> s is AttachNetwork
            &&& run.step is Failed ==> exists|s: InstanceStep| #[trigger]
                run.failed(s) && !(s is AttachNetwork)
            &&& outcomes.len() >= 8 && (forall|s: InstanceStep| #[trigger]
                run.failed(s) ==> s is AttachNetwork) ==> run.step is Created
        }),
{
    let next = |step: InstanceStep, o: bool| instance_next(step, o);
    let over = |step: InstanceStep| instance_is_over(step);
    let inv = |run: Run<InstanceStep, bool>| instance_history(run);
    let first = fresh::<InstanceStep, bool>(InstanceStep::CheckMemory);
    assert forall|r: Run<InstanceStep, bool>, o: bool| inv(r) && !over(r.step) implies inv(
        #[trigger] advanced(next, r, o),
    ) by {
        lemma_instance_history(r, o, advanced(next, r, o));
    }
    lemma_run_keeps(next, over, inv, first, outcomes);
    if outcomes.len() >= 8 {
        let rank = |step: InstanceStep| instance_rank(step) as int;
        assert forall|s: InstanceStep, o: bool| !over(s) implies 0 <= rank(#[trigger] next(s, o))
            < rank(s) by {
            law_instance_creation_ends(s, o);
        }
        lemma_run_ends(next, over, rank, first, outcomes);
    }
}

/// A job runs exactly where its task runs or is paused, has ended well exactly
/// where its task has stopped with code zero, and has failed in every other
/// case. Nothing else of it changes.
pub proof fn law_job_ends_as_its_task(
    deployment: &mut Deployment,
    status: Option<TaskStatus>,
    exit: Option<u32>,
)
    requires
        call_ensures(job_task_seen, (deployment, status, exit), ()),
    ensures
        final(deployment).status == DeploymentStatus::Running <==> (status == Some(
            TaskStatus::Running,
        ) || status == Some(TaskStatus::Paused)),
        final(deployment).status == DeploymentStatus::Completed <==> status == Some(
            TaskStatus::Stopped,
        ) && exit == Some(0u32),
        final(deployment).status == DeploymentStatus::Running || final(deployment).status
            == DeploymentStatus::Completed || final(deployment).status == DeploymentStatus::Failed,
        final(deployment).restart_count == old(deployment).restart_count,
        final(deployment).instances@ == old(deployment).instances@,
{
}

/// A job's tick removes everything exactly where the job is deleted, leaves one
/// that has ended as it is, fails one that is out of restarts, and looks for the
/// instance of any other.
pub proof fn law_job_tick_begins(deployment: &mut Deployment, r: JobAction)
    requires
        call_ensures(job_begin, (deployment,), r),
    ensures
        ({
            let was = old(deployment).status;
            let ended = was == DeploymentStatus::Completed || was == DeploymentStatus::Failed;
            let spent = old(deployment).restart_count >= 5;
            &&& r == JobAction::RemoveAll <==> was == DeploymentStatus::Deleted
            &&& r == JobAction::FindInstance <==> was != DeploymentStatus::Deleted && !ended
                && !spent
            &&& was == DeploymentStatus::Deleted || ended || !spent ==> final(deployment).status
                == was
            &&& was != DeploymentStatus::Deleted && spent && !ended ==> final(deployment).status
                == DeploymentStatus::Failed
        }),
        final(deployment).restart_count == old(deployment).restart_count,
        final(deployment).instances@ == old(deployment).instances@,
{
}

/// A worker's tick moves the number of instances by at most one towards the
/// declared number, and only where the worker is neither deleted nor out of
/// restarts. What is taken down is the oldest instance, and it leaves the list.
pub proof fn law_worker_tick_scales_by_one(deployment: &mut Deployment, r: FleetStep)
    requires
        call_ensures(worker_begin, (deployment,), r),
    ensures
        ({
            let before = old(deployment).instances@;
            let replicas = old(deployment).replicas;
            let deleted = old(deployment).status == DeploymentStatus::Deleted;
            let spent = old(deployment).restart_count >= 5;
            let idle = !deleted && (spent || old(deployment).status
                == DeploymentStatus::CrashLoopBackOff);
            &&& r is RemoveAll <==> deleted
            &&& r is Create <==> !deleted && !idle && before.len() < replicas
            &&& r is Remove <==> !deleted && !idle && before.len() > replicas
            &&& r matches FleetStep::Remove(id) ==> id@ == before[0]@ && final(deployment).instances@ == before.subrange(1, before.len() as int) && final(deployment).log().len() == old(deployment).log().len() + 1
            &&& !(r is Remove) ==> final(deployment).instances@ == before
            &&& idle ==> final(deployment).status == DeploymentStatus::CrashLoopBackOff
            &&& !idle ==> final(deployment).status == old(deployment).status
        }),
        final(deployment).restart_count == old(deployment).restart_count,
        final(deployment).replicas == old(deployment).replicas,
{
}

/// A worker that is coming up runs once an instance was created; any other
/// status stays. The creation is reported once.
pub proof fn law_created_worker_runs(deployment: &mut Deployment, current: usize)
    requires
        call_ensures(worker_created, (deployment, current), ()),
    ensures
        old(deployment).status == DeploymentStatus::Pending || old(deployment).status
            == DeploymentStatus::Creating ==> final(deployment).status == DeploymentStatus::Running,
        !(old(deployment).status == DeploymentStatus::Pending || old(deployment).status
            == DeploymentStatus::Creating) ==> final(deployment).status == old(deployment).status,
        final(deployment).log().len() == old(deployment).log().len() + 1,
        final(deployment).instances@ == old(deployment).instances@,
        final(deployment).restart_count == old(deployment).restart_count,
{
}

/// A failed creation leaves the status that names its kind, uses up one restart
/// exactly where it is told to, whatever the kind, and is reported once, with
/// the text of the error at the end.
pub proof fn law_create_error_is_recorded(
    deployment: &mut Deployment,
    err: RuntimeError,
    increment_restart: bool,
)
    requires
        call_ensures(handle_create_error, (deployment, err, increment_restart), ()),
    ensures
        final(deployment).status == DeploymentStatus::ImagePullBackOff <==> (err is ImageNotFound
            || err is ImagePullFailed),
        final(deployment).status == DeploymentStatus::CreateContainerError
            <==> err is InstanceCreationFailed,
        final(deployment).status == DeploymentStatus::InsufficientResources
            <==> err is InsufficientResources,
        final(deployment).status == DeploymentStatus::Error <==> !(err is ImageNotFound
            || err is ImagePullFailed || err is InstanceCreationFailed
            || err is InsufficientResources),
        increment_restart ==> final(deployment).restart_count == old(deployment).restart_count + 1,
        !increment_restart ==> final(deployment).restart_count == old(deployment).restart_count,
        final(deployment).log().len() == old(deployment).log().len() + 1,
        final(deployment).log().drop_last() == old(deployment).log(),
        final(deployment).log().last().level == "error"@,
        err matches RuntimeError::ImageNotFound(detail) ==> detail@.is_suffix_of(
            final(deployment).log().last().message,
        ),
        err matches RuntimeError::ImagePullFailed(detail) ==> detail@.is_suffix_of(
            final(deployment).log().last().message,
        ),
        err matches RuntimeError::InstanceCreationFailed(detail) ==> detail@.is_suffix_of(
            final(deployment).log().last().message,
        ),
        err matches RuntimeError::InsufficientResources(detail) ==> detail@ == final(deployment).log().last().message,
        final(deployment).instances@ == old(deployment).instances@,
{
    assert(final(deployment).log().drop_last() =~= old(deployment).log());
    let message = final(deployment).log().last().message;
    if let RuntimeError::ImageNotFound(detail) = err {
        assert(message.subrange(message.len() - detail@.len(), message.len() as int) =~= detail@);
    }
    if let RuntimeError::ImagePullFailed(detail) = err {
        assert(message.subrange(message.len() - detail@.len(), message.len() as int) =~= detail@);
    }
    if let RuntimeError::InstanceCreationFailed(detail) = err {
        assert(message.subrange(message.len() - detail@.len(), message.len() as int) =~= detail@);
    }
}

/// A daemon that cannot be reached leaves the deployment in error, with one
/// report, and uses up no restart.
pub proof fn law_lost_daemon_costs_no_restart(deployment: &mut Deployment, e: &RuntimeError)
    requires
        call_ensures(connect_failed, (deployment, e), ()),
    ensures
        final(deployment).status == DeploymentStatus::Error,
        final(deployment).restart_count == old(deployment).restart_count,
        final(deployment).instances@ == old(deployment).instances@,
        final(deployment).log().len() == old(deployment).log().len() + 1,
{
}

/// The rendered files are those of the volumes with a content, in the order of
/// the volumes: one more volume adds the file of its content and its
/// destination, or nothing.
pub proof fn law_every_content_has_its_file(
    deployment_id: &str,
    mounts: &Vec<ResolvedMount>,
    more: &Vec<ResolvedMount>,
    last: ResolvedMount,
    before: Vec<(String, String)>,
    after: Vec<(String, String)>,
    content: &str,
    file: String,
)
    requires
        more@ == mounts@.push(last),
        last matches ResolvedMount::Content { content: c, destination: _ } ==> content@ == c@,
        call_ensures(config_file, (deployment_id, content), file),
        call_ensures(config_files, (deployment_id, mounts), before),
        call_ensures(config_files, (deployment_id, more), after),
    ensures
        mounts@.len() == 0 ==> before@.len() == 0,
        last matches ResolvedMount::Content { content: _, destination } ==> str_pairs(after@)
            == str_pairs(before@).push((file@, destination@)),
        !(last is Content) ==> str_pairs(after@) == str_pairs(before@),
{
    assert(more@.drop_last() =~= mounts@);
    assert(str_pairs(before@).len() == before@.len());
}

/// What a failed step leaves to be undone is what the steps before it made, each
/// part once and in the reverse order: the interface, the task, the container
/// and the snapshot.
pub proof fn law_undoing_reverses_the_making(step: InstanceStep, r: Vec<InstancePart>)
    requires
        call_ensures(undo_after, (step,), r),
    ensures
        r@.contains(InstancePart::Snapshot) <==> (step is WriteFiles || step is CreateContainer
            || step is CreateTask || step is StartTask),
        r@.contains(InstancePart::Container) <==> (step is CreateTask || step is StartTask),
        r@.contains(InstancePart::Task) <==> step is StartTask,
        r@.contains(InstancePart::Interface) <==> step is StartTask,
        r@.no_duplicates(),
        r@.len() > 0 ==> r@.last() == InstancePart::Snapshot,
        r@.len() > 1 ==> r@[r@.len() - 2] == InstancePart::Container,
        r@.len() > 2 ==> r@[r@.len() - 3] == InstancePart::Task,
{
    let parts = r@;
    match step {
        InstanceStep::WriteFiles | InstanceStep::CreateContainer => {
            assert(parts[0] == InstancePart::Snapshot);
        },
        InstanceStep::CreateTask => {
            assert(parts[0] == InstancePart::Container);
            assert(parts[1] == InstancePart::Snapshot);
        },
        InstanceStep::StartTask => {
            assert(parts[0] == InstancePart::Interface);
            assert(parts[1] == InstancePart::Task);
            assert(parts[2] == InstancePart::Container);
            assert(parts[3] == InstancePart::Snapshot);
        },
        _ => {},
    }
}

/// The error of a failed step keeps the text of the error behind it, and blames
/// the creation exactly where the daemon refused one of its own steps.
pub proof fn law_failed_step_keeps_its_text(
    step: InstanceStep,
    instance_id: &str,
    detail: &str,
    r: RuntimeError,
)
    requires
        call_ensures(instance_error_for, (step, instance_id, detail), r),
    ensures
        r is InstanceCreationFailed <==> (step is PrepareSnapshot || step is CreateContainer || step
            is CreateTask || step is StartTask),
        !(r is InstanceCreationFailed) ==> r@ == RuntimeErrorView::Io(detail@),
        r is InstanceCreationFailed ==> (instance_id@ + ": "@ + detail@).is_suffix_of(
            r@->InstanceCreationFailed_0,
        ),
{
    if r is InstanceCreationFailed {
        let text = r@->InstanceCreationFailed_0;
        let tail = instance_id@ + ": "@ + detail@;
        assert(text.subrange(text.len() - tail.len(), text.len() as int) =~= tail);
    }
}

/// An instance is asked to end before it is killed, with a wait between the two
/// signals, and nothing that was made for it goes before the second one. What is
/// made last goes first.
pub proof fn law_instance_is_asked_before_it_is_killed(r: Vec<TeardownStep>)
    requires
        call_ensures(teardown_steps, (), r),
    ensures
        ({
            let steps = r@;
            let ask = steps.index_of(TeardownStep::Signal(15));
            let kill = steps.index_of(TeardownStep::Signal(9));
            let task = steps.index_of(TeardownStep::DeleteTask);
            let container = steps.index_of(TeardownStep::DeleteContainer);
            let snapshot = steps.index_of(TeardownStep::RemoveSnapshot);
            &&& steps.contains(TeardownStep::Signal(15)) && steps.contains(TeardownStep::Signal(9))
            &&& steps.contains(TeardownStep::DetachNetwork) && steps.contains(
                TeardownStep::RemoveLog,
            )
            &&& ask < steps.index_of(TeardownStep::WaitUpTo(10)) < kill < task < container
                < snapshot < steps.len()
            &&& kill < steps.index_of(TeardownStep::DetachNetwork) < task
        }),
{
    let steps = r@;
    assert(steps.len() == 8);
    assert(steps[0] == TeardownStep::Signal(15));
    assert(steps[1] == TeardownStep::WaitUpTo(10));
    assert(steps[2] == TeardownStep::Signal(9));
    assert(steps[3] == TeardownStep::DetachNetwork);
    assert(steps[4] == TeardownStep::DeleteTask);
    assert(steps[5] == TeardownStep::DeleteContainer);
    assert(steps[6] == TeardownStep::RemoveSnapshot);
    assert(steps[7] == TeardownStep::RemoveLog);
}

/// The digest and the instance of a creation are recorded, and nothing else of
/// the deployment changes.
pub proof fn law_instance_is_recorded(
    pulled: &mut Deployment,
    digest: String,
    created: &mut Deployment,
    instance_id: String,
)
    requires
        call_ensures(record_image_digest, (pulled, digest), ()),
        call_ensures(record_instance, (created, instance_id), ()),
    ensures
        final(pulled).image_digest == Some(digest),
        final(pulled).instances@ == old(pulled).instances@,
        final(pulled).status == old(pulled).status,
        final(created).instances@.len() == old(created).instances@.len() + 1,
        final(created).instances@.last() == instance_id,
        final(created).instances@.drop_last() == old(created).instances@,
        final(created).image_digest == old(created).image_digest,
        final(created).status == old(created).status,
        final(created).restart_count == old(created).restart_count,
{
    assert(final(created).instances@.drop_last() =~= old(created).instances@);
}

/// The removal of all instances is told of exactly where there were any, with how
/// many; nothing else changes.
pub proof fn law_teardown_is_told(d: &mut Deployment, kind: &str, r: ())
    requires
        call_ensures(remove_all, (d, kind), r),
    ensures
        old(d).instances@.len() == 0 ==> final(d).log() == old(d).log(),
        old(d).instances@.len() > 0 ==> {
            &&& final(d).log().len() == old(d).log().len() + 1
            &&& final(d).log().last().level == "info"@
            &&& final(d).log().last().reason == Some("container_deletion"@)
            &&& ("Deleted "@ + decimal(old(d).instances@.len())).is_prefix_of(
                final(d).log().last().message,
            )
        },
        final(d).status == old(d).status,
        final(d).restart_count == old(d).restart_count,
        final(d).instances == old(d).instances,
{
    if old(d).instances@.len() > 0 {
        let head = "Deleted "@ + decimal(old(d).instances@.len());
        let text = final(d).log().last().message;
        assert(text.subrange(0, head.len() as int) =~= head);
    }
}

/// A process writes to its own log file, and the network of an instance is taken
/// down in the namespace of its process, or in none where the process is not known.
pub proof fn law_output_goes_to_the_own_log(
    id: &str,
    log: String,
    uri: String,
    pid: Option<u32>,
    netns: String,
)
    requires
        call_ensures(log_path, (id,), log),
        call_ensures(stdio_uri, (id,), uri),
        call_ensures(teardown_netns, (pid,), netns),
    ensures
        uri@ == "file://"@ + log@,
        (id@ + ".log"@).is_suffix_of(log@),
        netns@.len() == 0 <==> pid is None,
        pid matches Some(n) ==> netns@ == "/proc/"@ + decimal(n as nat) + "/ns/net"@,
{
    let tail = id@ + ".log"@;
    assert(log@.subrange(log@.len() - tail.len(), log@.len() as int) =~= tail);
    reveal_strlit("/proc/");
    assert("/proc/"@.len() == 6);
}

/// An instance that is created stays so, and a creation that failed stays failed,
/// whatever is reported then; a network that cannot be attached stops nothing.
pub proof fn law_end_of_an_instance_is_final(step: InstanceStep, ok: bool, r: InstanceStep)
    requires
        call_ensures(next_instance_step, (step, ok), r),
    ensures
        step is Created ==> r is Created,
        step is Failed ==> r is Failed,
        step is AttachNetwork ==> r is StartTask,
        !ok && !(step is AttachNetwork) && !(step is Created) ==> r is Failed,
{
}

/// What a failed creation is reported under, and what the report says first.
pub proof fn law_create_error_has_its_reason(
    deployment: &mut Deployment,
    err: RuntimeError,
    increment_restart: bool,
    text: String,
)
    requires
        call_ensures(handle_create_error, (deployment, err, increment_restart), ()),
        call_ensures(RuntimeError::message, (&err,), text),
    ensures
        ({
            let said = final(deployment).log().last();
            let reason = said.reason;
            &&& said.component == "containerd"@
            &&& err is ImageNotFound || err is ImagePullFailed ==> reason == Some(
                "image_pull_back_off"@,
            ) && contains(said.message, old(deployment).image@)
            &&& err is InstanceCreationFailed ==> reason == Some("instance_creation_failed"@)
            &&& err is InsufficientResources ==> reason == Some("insufficient_resources"@)
            &&& !(err is ImageNotFound || err is ImagePullFailed || err is InstanceCreationFailed
                || err is InsufficientResources) ==> reason == Some("runtime_error"@)
                && text@.is_suffix_of(said.message)
        }),
{
    let m = final(deployment).log().last().message;
    let image = old(deployment).image@;
    if err is ImageNotFound {
        let k = "Image '"@.len() as int;
        assert(m.subrange(k, k + image.len()) =~= image);
        assert(occurs_at(m, image, k));
    } else if err is ImagePullFailed {
        let k = "Failed to pull image '"@.len() as int;
        assert(m.subrange(k, k + image.len()) =~= image);
        assert(occurs_at(m, image, k));
    } else if !(err is InstanceCreationFailed || err is InsufficientResources) {
        assert(m.subrange(m.len() - text@.len(), m.len() as int) =~= text@);
    }
}

/// What happens to a worker is told under the name of what happened, with the
/// numbers of instances before and after it; an instance that goes is named.
pub proof fn law_worker_events_are_told(
    d: &mut Deployment,
    current: usize,
    other: &mut Deployment,
    r: FleetStep,
)
    requires
        current < usize::MAX,
        call_ensures(worker_created, (d, current), ()),
        call_ensures(worker_begin, (other,), r),
    ensures
        final(d).log().last().level == "info"@,
        final(d).log().last().component == "containerd"@,
        final(d).log().last().reason == Some("scale_up"@),
        contains(
            final(d).log().last().message,
            decimal(current as nat) + " to "@ + decimal((current + 1) as nat),
        ),
        r matches FleetStep::Remove(id) ==> final(other).log().last().reason == Some("scale_down"@)
            && (id@ + ")"@).is_suffix_of(final(other).log().last().message),
        !(r is Remove) && !(r is RemoveAll) ==> final(other).log() == old(other).log(),
{
    let m = final(d).log().last().message;
    let part = decimal(current as nat) + " to "@ + decimal((current + 1) as nat);
    let k = "Scaled up from "@.len() as int;
    assert(m.subrange(k, k + part.len()) =~= part);
    assert(occurs_at(m, part, k));
    if let FleetStep::Remove(id) = r {
        let t = final(other).log().last().message;
        let tail = id@ + ")"@;
        assert(t.subrange(t.len() - tail.len(), t.len() as int) =~= tail);
    }
}

} // verus!
