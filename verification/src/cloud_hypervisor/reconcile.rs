//! What a tick does with the virtual machines of a deployment, and how an
//! instance is taken down.
use vstd::prelude::*;
use crate::classifier::{apply_vm_start_failure, restarts_after_vm_failure, status_after_vm_failure, vm_start_verdict};
use crate::cloud_hypervisor::client::DiskConfig;
use crate::cloud_hypervisor::console_logs::{backup_name, backup_path};
use crate::cloud_hypervisor::lifecycle::{CloudHypervisorLifecycle, state_accepted};
use crate::cloud_hypervisor::start::disks_of;
use crate::error::{RuntimeError, error_text};
use crate::models::{Deployment, DeploymentStatus, EventView, HealthCheckStatus, MAX_RESTART_COUNT, event};
use crate::paths::{instance_file, joined_path};
use crate::text::{cat2, cat3, cat4, decimal_i64, opt_str, same, signed_decimal, strs, trim, trimmed};

verus! {

/// The part of the system that events are reported under.
pub const COMPONENT: &'static str = "cloud-hypervisor";

/// Whether a deployment has not been up yet.
pub open spec fn is_coming_up(status: DeploymentStatus) -> bool {
    status == DeploymentStatus::Creating || status == DeploymentStatus::Pending
}

/// Which way a tick goes.
#[derive(Clone, Copy, Debug, PartialEq, Eq, Structural)]
pub enum VmTick {
    /// Stop every instance, whatever its state, and forget them.
    RemoveAll,
    /// Go on as a job.
    Job,
    /// Go on as a worker.
    Worker,
}

/// Which way a deployment's tick goes.
pub open spec fn tick_for(d: &Deployment) -> VmTick {
    if d.status == DeploymentStatus::Deleted {
        VmTick::RemoveAll
    } else if d.kind@ == "job"@ {
        VmTick::Job
    } else {
        VmTick::Worker
    }
}

/// Begin a deployment's tick: one that is deleted loses its instances, and a
/// job and a worker go their own ways.
pub fn begin_tick(deployment: &Deployment) -> (r: VmTick)
    ensures
        r == tick_for(deployment),
{
    if deployment.status == DeploymentStatus::Deleted {
        VmTick::RemoveAll
    } else if same(deployment.kind.as_str(), "job") {
        VmTick::Job
    } else {
        VmTick::Worker
    }
}

/// The states in which a VM is up or coming up.
pub open spec fn live_states() -> Seq<Seq<char>> {
    seq!["Running"@, "Created"@, "Booting"@]
}

/// The states in which a VM counts towards a worker's replicas.
pub fn worker_states() -> (r: Vec<String>)
    ensures
        strs(r@) == live_states(),
{
    let mut out: Vec<String> = Vec::new();
    out.push("Running".to_owned());
    out.push("Created".to_owned());
    out.push("Booting".to_owned());
    assert(strs(out@) =~= live_states());
    out
}

/// The states in which a VM is among the instances that are listed.
pub fn listed_states() -> (r: Vec<String>)
    ensures
        strs(r@) == seq!["Running"@],
{
    let mut out: Vec<String> = Vec::new();
    out.push("Running".to_owned());
    assert(strs(out@) =~= seq!["Running"@]);
    out
}

/// What is to be done next for a worker.
#[derive(Debug)]
pub enum VmWorkerAction {
    /// The tick is over.
    Done,
    /// Start one VM and report the result.
    Start,
    /// Stop this VM. The tick is over.
    Stop(String),
}

/// A [`VmWorkerAction`] by its contents.
pub enum VmWorkerView {
    Done,
    Start,
    Stop(Seq<char>),
}

impl View for VmWorkerAction {
    type V = VmWorkerView;

    open spec fn view(&self) -> VmWorkerView {
        match *self {
            VmWorkerAction::Done => VmWorkerView::Done,
            VmWorkerAction::Start => VmWorkerView::Start,
            VmWorkerAction::Stop(id) => VmWorkerView::Stop(id@),
        }
    }
}

/// What a worker's tick does with the instances that were found.
pub open spec fn vm_worker_action(d: &Deployment, found: Seq<String>) -> VmWorkerView {
    if found.len() < d.replicas && d.status != DeploymentStatus::CrashLoopBackOff {
        VmWorkerView::Start
    } else if found.len() > d.replicas {
        VmWorkerView::Stop(found[0]@)
    } else {
        VmWorkerView::Done
    }
}

/// Take one step towards the declared number of replicas, given the instances
/// that are up or coming up. A deployment in the crash loop status gets no new
/// instance. Where there are too many, the first one leaves the list.
pub fn worker_found(deployment: &mut Deployment, found: Vec<String>) -> (r: VmWorkerAction)
    ensures
        r@ == vm_worker_action(old(deployment), found@),
        final(deployment).instances@ == if r@ is Stop {
            found@.skip(1)
        } else {
            found@
        },
        *final(deployment) == (Deployment {
            instances: final(deployment).instances,
            ..*old(deployment)
        }),
{
    deployment.instances = found;
    let current: usize = deployment.instances.len();
    let target: usize = deployment.replicas as usize;
    if current < target && deployment.status != DeploymentStatus::CrashLoopBackOff {
        return VmWorkerAction::Start;
    }
    if current > target {
        let id = deployment.instances.remove(0);
        assert(deployment.instances@ =~= found@.skip(1));
        return VmWorkerAction::Stop(id);
    }
    VmWorkerAction::Done
}

/// Record a VM of a worker that was started.
pub fn worker_started(deployment: &mut Deployment, instance_id: String)
    ensures
        final(deployment).instances@ == old(deployment).instances@.push(instance_id),
        final(deployment).status == if is_coming_up(old(deployment).status) {
            DeploymentStatus::Running
        } else {
            old(deployment).status
        },
        *final(deployment) == (Deployment {
            status: final(deployment).status,
            instances: final(deployment).instances,
            ..*old(deployment)
        }),
{
    deployment.instances.push(instance_id);
    if deployment.status == DeploymentStatus::Creating || deployment.status
        == DeploymentStatus::Pending {
        deployment.status = DeploymentStatus::Running;
    }
}

/// Record a VM of a worker that could not be started.
pub fn worker_start_failed(deployment: &mut Deployment, e: &RuntimeError)
    requires
        vm_start_verdict(e@).0 is None ==> old(deployment).restart_count < u32::MAX,
    ensures
        final(deployment).log() == old(deployment).log().push(
            event("error"@, error_text(e@), "cloud-hypervisor"@, vm_start_verdict(e@).1),
        ),
        final(deployment).restart_count == restarts_after_vm_failure(
            old(deployment).restart_count as int,
            e@,
        ),
        final(deployment).status == status_after_vm_failure(
            old(deployment).status,
            old(deployment).restart_count as int,
            e@,
            DeploymentStatus::CrashLoopBackOff,
        ),
        *final(deployment) == (Deployment {
            status: final(deployment).status,
            restart_count: final(deployment).restart_count,
            pending_events: final(deployment).pending_events,
            ..*old(deployment)
        }),
{
    apply_vm_start_failure(deployment, e, COMPONENT, DeploymentStatus::CrashLoopBackOff);
}

/// What is to be done next for a job.
#[derive(Debug)]
pub enum VmJobAction {
    /// The tick is over.
    Done,
    /// List the instances of the job, whatever their state, and report the
    /// first one.
    Scan,
    /// Ask the VMM of this instance for its state and report it.
    QueryState(String),
    /// Remove whatever files of the job's instances are left. The tick is over.
    CleanUp,
    /// Start the VM and report the result.
    Start,
    /// Stop this instance. The tick is over.
    Stop(String),
}

/// A [`VmJobAction`] by its contents.
pub enum VmJobView {
    Done,
    Scan,
    QueryState(Seq<char>),
    CleanUp,
    Start,
    Stop(Seq<char>),
}

impl View for VmJobAction {
    type V = VmJobView;

    open spec fn view(&self) -> VmJobView {
        match *self {
            VmJobAction::Done => VmJobView::Done,
            VmJobAction::Scan => VmJobView::Scan,
            VmJobAction::QueryState(id) => VmJobView::QueryState(id@),
            VmJobAction::CleanUp => VmJobView::CleanUp,
            VmJobAction::Start => VmJobView::Start,
            VmJobAction::Stop(id) => VmJobView::Stop(id@),
        }
    }
}

/// Whether a job has ended for good.
pub open spec fn job_has_ended(status: DeploymentStatus) -> bool {
    status == DeploymentStatus::Completed || status == DeploymentStatus::Failed || status
        == DeploymentStatus::CrashLoopBackOff
}

/// Begin a job's tick. A job that has ended is never booted again.
pub fn job_begin(deployment: &Deployment) -> (r: VmJobAction)
    ensures
        r@ == if job_has_ended(deployment.status) {
            VmJobView::Done
        } else {
            VmJobView::Scan
        },
{
    if deployment.status == DeploymentStatus::Completed || deployment.status
        == DeploymentStatus::Failed || deployment.status == DeploymentStatus::CrashLoopBackOff {
        VmJobAction::Done
    } else {
        VmJobAction::Scan
    }
}

/// The report of a job whose VM is gone after it was running.
pub open spec fn vmm_gone_event() -> EventView {
    event(
        "info"@,
        "Job VM exited and CH process terminated; finalized as completed"@,
        "cloud-hypervisor"@,
        "job_completed"@,
    )
}

/// What a job's tick does when the first of its instances is known.
pub open spec fn vm_job_action(d: &Deployment, first: Option<Seq<char>>) -> VmJobView {
    match first {
        Some(id) => VmJobView::QueryState(id),
        None => if d.status == DeploymentStatus::Running {
            VmJobView::CleanUp
        } else if is_coming_up(d.status) {
            VmJobView::Start
        } else {
            VmJobView::Done
        },
    }
}

/// Go on with a job's tick once its instances are known. A job that was running
/// and has no instance left has completed: the VMM exits when the guest powers
/// off.
pub fn job_scanned(deployment: &mut Deployment, first: Option<String>) -> (r: VmJobAction)
    ensures
        r@ == vm_job_action(old(deployment), opt_str(first)),
        r@ is CleanUp ==> {
            &&& final(deployment).instances.len() == 0
            &&& final(deployment).status == DeploymentStatus::Completed
            &&& final(deployment).log() == old(deployment).log().push(vmm_gone_event())
            &&& *final(deployment) == (Deployment {
                status: final(deployment).status,
                instances: final(deployment).instances,
                pending_events: final(deployment).pending_events,
                ..*old(deployment)
            })
        },
        !(r@ is CleanUp) ==> *final(deployment) == *old(deployment),
{
    if let Some(id) = first {
        return VmJobAction::QueryState(id);
    }
    if deployment.status == DeploymentStatus::Running {
        deployment.instances.clear();
        deployment.status = DeploymentStatus::Completed;
        deployment.emit_event(
            "info",
            "Job VM exited and CH process terminated; finalized as completed".to_owned(),
            COMPONENT,
            "job_completed",
        );
        return VmJobAction::CleanUp;
    }
    if deployment.status == DeploymentStatus::Creating || deployment.status
        == DeploymentStatus::Pending {
        return VmJobAction::Start;
    }
    VmJobAction::Done
}

/// What a job's tick makes of the state of its VM.
#[derive(Clone, Copy, Debug, PartialEq, Eq, Structural)]
pub enum JobVmState {
    /// It is up or coming up.
    Alive,
    /// The guest has powered off.
    Shutdown,
    /// Some other state.
    Other,
    /// The VMM does not answer.
    Unreachable,
}

/// The state of a VM by the name that the VMM gives it.
pub open spec fn job_vm_state(state: Option<Seq<char>>) -> JobVmState {
    match state {
        Some(s) => if live_states().contains(s) {
            JobVmState::Alive
        } else if s == "Shutdown"@ {
            JobVmState::Shutdown
        } else {
            JobVmState::Other
        },
        None => JobVmState::Unreachable,
    }
}

/// The state of a VM by the name that the VMM gives it.
pub fn read_job_state(state: &Option<String>) -> (r: JobVmState)
    ensures
        r == job_vm_state(opt_str(*state)),
{
    match state {
        Some(s) => {
            let s = s.as_str();
            assert(live_states()[0] == "Running"@ && live_states()[1] == "Created"@
                && live_states()[2] == "Booting"@);
            if same(s, "Running") || same(s, "Created") || same(s, "Booting") {
                JobVmState::Alive
            } else if same(s, "Shutdown") {
                JobVmState::Shutdown
            } else {
                JobVmState::Other
            }
        },
        None => JobVmState::Unreachable,
    }
}

/// The report of a job whose guest has powered off.
pub open spec fn job_done_event(id: Seq<char>) -> EventView {
    event(
        "info"@,
        "Job VM "@ + id + " completed"@,
        "cloud-hypervisor"@,
        "job_completed"@,
    )
}

/// The report of a job whose VM has crashed too often.
pub open spec fn job_crashed_event() -> EventView {
    event(
        "error"@,
        "Job VM repeatedly crashed before completing"@,
        "cloud-hypervisor"@,
        "job_failed"@,
    )
}

/// End a job's tick with the state of its VM. A guest that has powered off has
/// done its work; a VMM that does not answer counts as a crash.
pub fn job_state_known(deployment: &mut Deployment, instance_id: String, state: JobVmState) -> (r:
    VmJobAction)
    requires
        state == JobVmState::Unreachable ==> old(deployment).restart_count < u32::MAX,
    ensures
        r@ == match state {
            JobVmState::Shutdown | JobVmState::Unreachable => VmJobView::Stop(instance_id@),
            _ => VmJobView::Done,
        },
        final(deployment).instance_ids() == match state {
            JobVmState::Shutdown | JobVmState::Unreachable => Seq::empty(),
            _ => seq![instance_id@],
        },
        final(deployment).restart_count == old(deployment).restart_count + if state
            == JobVmState::Unreachable {
            1int
        } else {
            0int
        },
        ({
            let spent = old(deployment).restart_count + 1 >= MAX_RESTART_COUNT;
            &&& final(deployment).status == match state {
                JobVmState::Alive => if is_coming_up(old(deployment).status) {
                    DeploymentStatus::Running
                } else {
                    old(deployment).status
                },
                JobVmState::Shutdown => DeploymentStatus::Completed,
                JobVmState::Other => old(deployment).status,
                JobVmState::Unreachable => if spent {
                    DeploymentStatus::Failed
                } else {
                    old(deployment).status
                },
            }
            &&& final(deployment).log() == match state {
                JobVmState::Shutdown => old(deployment).log().push(job_done_event(instance_id@)),
                JobVmState::Unreachable => if spent {
                    old(deployment).log().push(job_crashed_event())
                } else {
                    old(deployment).log()
                },
                _ => old(deployment).log(),
            }
        }),
        *final(deployment) == (Deployment {
            status: final(deployment).status,
            restart_count: final(deployment).restart_count,
            instances: final(deployment).instances,
            pending_events: final(deployment).pending_events,
            ..*old(deployment)
        }),
{
    let mut instances: Vec<String> = Vec::new();
    match state {
        JobVmState::Alive => {
            instances.push(instance_id);
            assert(strs(instances@) =~= seq![instance_id@]);
            deployment.instances = instances;
            if deployment.status == DeploymentStatus::Creating || deployment.status
                == DeploymentStatus::Pending {
                deployment.status = DeploymentStatus::Running;
            }
            VmJobAction::Done
        },
        JobVmState::Shutdown => {
            assert(strs(instances@) =~= Seq::empty());
            deployment.instances = instances;
            deployment.status = DeploymentStatus::Completed;
            deployment.emit_event(
                "info",
                cat3("Job VM ", instance_id.as_str(), " completed"),
                COMPONENT,
                "job_completed",
            );
            VmJobAction::Stop(instance_id)
        },
        JobVmState::Other => {
            instances.push(instance_id);
            assert(strs(instances@) =~= seq![instance_id@]);
            deployment.instances = instances;
            VmJobAction::Done
        },
        JobVmState::Unreachable => {
            assert(strs(instances@) =~= Seq::empty());
            deployment.instances = instances;
            deployment.restart_count = deployment.restart_count + 1;
            if deployment.restart_count >= MAX_RESTART_COUNT {
                deployment.status = DeploymentStatus::Failed;
                deployment.emit_event(
                    "error",
                    "Job VM repeatedly crashed before completing".to_owned(),
                    COMPONENT,
                    "job_failed",
                );
            }
            VmJobAction::Stop(instance_id)
        },
    }
}

/// Record the VM of a job that was started.
pub fn job_started(deployment: &mut Deployment, instance_id: String)
    ensures
        final(deployment).instances@ == old(deployment).instances@.push(instance_id),
        final(deployment).status == DeploymentStatus::Running,
        *final(deployment) == (Deployment {
            status: final(deployment).status,
            instances: final(deployment).instances,
            ..*old(deployment)
        }),
{
    deployment.instances.push(instance_id);
    deployment.status = DeploymentStatus::Running;
}

/// Record the VM of a job that could not be started.
pub fn job_start_failed(deployment: &mut Deployment, e: &RuntimeError)
    requires
        vm_start_verdict(e@).0 is None ==> old(deployment).restart_count < u32::MAX,
    ensures
        final(deployment).log() == old(deployment).log().push(
            event("error"@, error_text(e@), "cloud-hypervisor"@, vm_start_verdict(e@).1),
        ),
        final(deployment).restart_count == restarts_after_vm_failure(
            old(deployment).restart_count as int,
            e@,
        ),
        final(deployment).status == status_after_vm_failure(
            old(deployment).status,
            old(deployment).restart_count as int,
            e@,
            DeploymentStatus::Failed,
        ),
        *final(deployment) == (Deployment {
            status: final(deployment).status,
            restart_count: final(deployment).restart_count,
            pending_events: final(deployment).pending_events,
            ..*old(deployment)
        }),
{
    apply_vm_start_failure(deployment, e, COMPONENT, DeploymentStatus::Failed);
}

/// Forget the instances of a deployment that is deleted: all of them are
/// stopped.
pub fn all_stopped(deployment: &mut Deployment)
    ensures
        final(deployment).instances.len() == 0,
        *final(deployment) == (Deployment {
            instances: final(deployment).instances,
            ..*old(deployment)
        }),
{
    deployment.instances.clear();
}

// ---------------------------------------------------------------------------
// Taking an instance down
// ---------------------------------------------------------------------------

/// The files that are removed with an instance besides its control socket: its
/// disk, the image for its first boot, its console log and its socket device.
pub open spec fn artifact_files(dir: Seq<char>, id: Seq<char>) -> Seq<Seq<char>> {
    seq![
        instance_file(dir, id, ".raw"@),
        instance_file(dir, id, ".cidata.iso"@),
        instance_file(dir, id, ".console.log"@),
        instance_file(dir, id, ".vsock"@),
    ]
}

/// The files that are removed with an instance besides its control socket. The
/// backups of the console log go too, and so does the directory with the
/// rendered files.
pub fn instance_artifacts(lifecycle: &CloudHypervisorLifecycle, instance_id: &str) -> (r: Vec<
    String,
>)
    ensures
        strs(r@) == artifact_files(lifecycle.config.socket_dir@, instance_id@),
{
    let mut out: Vec<String> = Vec::new();
    out.push(lifecycle.instance_image_path(instance_id));
    out.push(lifecycle.cidata_iso_path(instance_id));
    out.push(lifecycle.console_log_path(instance_id));
    out.push(lifecycle.vsock_path(instance_id));
    assert(strs(out@) =~= artifact_files(lifecycle.config.socket_dir@, instance_id@));
    out
}

/// The backups of a console log that are removed with an instance: every number
/// up to a thousand, whether it is there or not.
pub open spec fn console_backups(log: Seq<char>) -> Seq<Seq<char>> {
    Seq::new(1000, |i: int| backup_name(log, (i + 1) as nat))
}

/// The backups of the console log that are removed with an instance. One that is
/// missing is skipped.
pub fn stale_backups(lifecycle: &CloudHypervisorLifecycle, instance_id: &str) -> (r: Vec<String>)
    ensures
        strs(r@) == console_backups(
            instance_file(lifecycle.config.socket_dir@, instance_id@, ".console.log"@),
        ),
{
    let log = lifecycle.console_log_path(instance_id);
    let mut out: Vec<String> = Vec::new();
    let mut idx: u32 = 1;
    while idx <= 1000
        invariant
            1 <= idx <= 1001,
            out.len() == idx - 1,
            forall|j: int|
                0 <= j < out.len() ==> (#[trigger] out@[j])@ == backup_name(log@, (j + 1) as nat),
        decreases 1001 - idx,
    {
        out.push(backup_path(log.as_str(), idx));
        idx += 1;
    }
    assert(strs(out@) =~= console_backups(log@));
    out
}

/// Whether a path is a directory or lies in it.
pub open spec fn lies_in(path: Seq<char>, dir: Seq<char>) -> bool {
    path == dir || (dir + "/"@).is_prefix_of(path)
}

/// Whether a file is removed when an instance is cleaned up: it is one of its
/// files or a backup of its console log, or lies among its rendered files.
pub open spec fn is_cleaned_up(dir: Seq<char>, id: Seq<char>, path: Seq<char>) -> bool {
    ||| artifact_files(dir, id).contains(path)
    ||| console_backups(instance_file(dir, id, ".console.log"@)).contains(path)
    ||| lies_in(path, instance_file(dir, id, ".shares"@))
}

/// The files that are left of some when an instance was cleaned up.
pub open spec fn files_left(files: Set<Seq<char>>, dir: Seq<char>, id: Seq<char>) -> Set<
    Seq<char>,
> {
    files.filter(|path: Seq<char>| !is_cleaned_up(dir, id, path))
}

/// Cleaning up an instance leaves neither its console log nor any backup of it,
/// whichever numbers are missing, and doing it again changes nothing.
pub proof fn law_no_console_log_is_left(files: Set<Seq<char>>, dir: Seq<char>, id: Seq<char>)
    ensures
        !files_left(files, dir, id).contains(instance_file(dir, id, ".console.log"@)),
        forall|n: nat|
            1 <= n <= 1000 ==> !files_left(files, dir, id).contains(
                #[trigger] backup_name(instance_file(dir, id, ".console.log"@), n),
            ),
        files_left(files_left(files, dir, id), dir, id) == files_left(files, dir, id),
{
    let log = instance_file(dir, id, ".console.log"@);
    assert(artifact_files(dir, id)[2] == log);
    assert forall|n: nat| 1 <= n <= 1000 implies !files_left(files, dir, id).contains(
        #[trigger] backup_name(log, n),
    ) by {
        assert(console_backups(log)[n - 1] == backup_name(log, n));
    }
    assert(files_left(files_left(files, dir, id), dir, id) =~= files_left(files, dir, id));
}

/// How much of a path in a directory stands before the name.
spec fn name_start(dir: Seq<char>) -> int {
    if dir.len() == 0 || dir.last() == '/' {
        dir.len() as int
    } else {
        dir.len() as int + 1
    }
}

/// A path in a directory ends in the name.
proof fn lemma_name_of_joined(dir: Seq<char>, name: Seq<char>)
    requires
        name.len() > 0,
        name[0] != '/',
    ensures
        joined_path(dir, name).skip(name_start(dir)) == name,
        joined_path(dir, name).len() == name_start(dir) + name.len(),
{
    reveal_strlit("/");
    assert(joined_path(dir, name).skip(name_start(dir)) =~= name);
}

/// What is removed with an instance has a name that begins with its id and a
/// dot.
proof fn lemma_cleaned_up_name(dir: Seq<char>, id: Seq<char>, path: Seq<char>)
    requires
        id.len() > 0,
        id[0] != '/',
        is_cleaned_up(dir, id, path),
    ensures
        path.len() >= name_start(dir),
        id.push('.').is_prefix_of(path.skip(name_start(dir))),
{
    reveal_strlit("/");
    reveal_strlit(".");
    reveal_strlit(".raw");
    reveal_strlit(".cidata.iso");
    reveal_strlit(".console.log");
    reveal_strlit(".vsock");
    reveal_strlit(".shares");
    let k = name_start(dir);
    let log = instance_file(dir, id, ".console.log"@);
    lemma_name_of_joined(dir, id + ".raw"@);
    lemma_name_of_joined(dir, id + ".cidata.iso"@);
    lemma_name_of_joined(dir, id + ".console.log"@);
    lemma_name_of_joined(dir, id + ".vsock"@);
    lemma_name_of_joined(dir, id + ".shares"@);
    let name = path.skip(k);
    if artifact_files(dir, id).contains(path) {
        let i = choose|i: int|
            0 <= i < artifact_files(dir, id).len() && artifact_files(dir, id)[i] == path;
        assert(name[id.len() as int] == '.');
        assert(id.push('.') =~= name.subrange(0, id.len() as int + 1));
    } else if console_backups(log).contains(path) {
        let i = choose|i: int|
            0 <= i < console_backups(log).len() && console_backups(log)[i] == path;
        assert(path == backup_name(log, (i + 1) as nat));
        assert(log.is_prefix_of(path)) by {
            assert(path.subrange(0, log.len() as int) =~= log);
        }
        assert(name.take(log.len() - k) =~= log.skip(k));
        assert(log.skip(k)[id.len() as int] == '.');
        assert(id.push('.') =~= log.skip(k).take(id.len() as int + 1));
        assert(id.push('.') =~= name.subrange(0, id.len() as int + 1));
    } else {
        let shares = instance_file(dir, id, ".shares"@);
        assert(shares.is_prefix_of(path)) by {
            if path != shares {
                let longer = shares + "/"@;
                assert(longer =~= path.subrange(0, longer.len() as int));
                assert(path.subrange(0, shares.len() as int) =~= longer.take(shares.len() as int));
                assert(longer.take(shares.len() as int) =~= shares);
            } else {
                assert(path.subrange(0, shares.len() as int) =~= shares);
            }
        }
        assert(name.take(shares.len() - k) =~= shares.skip(k));
        assert(shares.skip(k)[id.len() as int] == '.');
        assert(id.push('.') =~= shares.skip(k).take(id.len() as int + 1));
        assert(id.push('.') =~= name.subrange(0, id.len() as int + 1));
    }
}

/// Cleaning up an instance touches no file whose name does not begin with the
/// instance's id and a dot.
pub proof fn law_clean_up_spares_other_names(dir: Seq<char>, id: Seq<char>, name: Seq<char>)
    requires
        id.len() > 0,
        id[0] != '/',
        name.len() > 0,
        name[0] != '/',
        !id.push('.').is_prefix_of(name),
    ensures
        !is_cleaned_up(dir, id, joined_path(dir, name)),
{
    lemma_name_of_joined(dir, name);
    if is_cleaned_up(dir, id, joined_path(dir, name)) {
        lemma_cleaned_up_name(dir, id, joined_path(dir, name));
    }
}

/// Cleaning up an instance touches neither a file of another instance nor
/// anything among the volumes that are kept by name.
pub proof fn law_clean_up_spares_other_files(
    dir: Seq<char>,
    id: Seq<char>,
    other: Seq<char>,
    suffix: Seq<char>,
    volume: Seq<char>,
)
    requires
        id.len() > 0,
        other.len() > 0,
        id != other,
        !id.contains('.') && !id.contains('/'),
        !other.contains('.') && !other.contains('/'),
        suffix.len() > 0,
        suffix[0] == '.',
    ensures
        !is_cleaned_up(dir, id, instance_file(dir, other, suffix)),
        !is_cleaned_up(dir, id, joined_path(dir, "volumes/"@ + volume)),
{
    reveal_strlit("volumes/");
    let start = id.push('.');
    assert(id.contains(id[0]));
    assert(other.contains(other[0]));
    let name = other + suffix;
    if start.is_prefix_of(name) {
        assert(start =~= name.subrange(0, start.len() as int));
        if id.len() < other.len() {
            assert(name[id.len() as int] == start[id.len() as int]);
            assert(other[id.len() as int] == '.');
            assert(other.contains(other[id.len() as int]));
        } else if id.len() > other.len() {
            assert(start[other.len() as int] == name[other.len() as int]);
            assert(id.contains(id[other.len() as int]));
        } else {
            assert forall|i: int| 0 <= i < id.len() implies id[i] == other[i] by {
                assert(start[i] == name[i]);
            }
            assert(id =~= other);
        }
    }
    law_clean_up_spares_other_names(dir, id, name);
    let kept = "volumes/"@ + volume;
    if start.is_prefix_of(kept) {
        assert(start =~= kept.subrange(0, start.len() as int));
        if id.len() <= 7 {
            assert(kept[id.len() as int] == start[id.len() as int]);
        } else {
            assert(id[7] == start[7]);
            assert(start[7] == kept[7]);
            assert(id.contains(id[7]));
        }
    }
    law_clean_up_spares_other_names(dir, id, kept);
}

/// Every file that a VM is given, its disks, its console and its socket device,
/// is among those that are removed with the instance.
pub proof fn law_vm_files_are_removed(
    dir: Seq<char>,
    id: Seq<char>,
    cidata: bool,
    disks: Seq<DiskConfig>,
)
    requires
        disks_of(dir, id, cidata, disks),
    ensures
        forall|i: int|
            0 <= i < disks.len() ==> artifact_files(dir, id).contains(#[trigger] disks[i].path@),
        artifact_files(dir, id).contains(instance_file(dir, id, ".console.log"@)),
        artifact_files(dir, id).contains(instance_file(dir, id, ".vsock"@)),
{
    let files = artifact_files(dir, id);
    assert(files[0] == instance_file(dir, id, ".raw"@));
    assert(files[1] == instance_file(dir, id, ".cidata.iso"@));
    assert(files[2] == instance_file(dir, id, ".console.log"@));
    assert(files[3] == instance_file(dir, id, ".vsock"@));
}

// ---------------------------------------------------------------------------
// Command probes
// ---------------------------------------------------------------------------

/// What the agent in a guest answers to a command.
#[derive(Debug)]
pub struct AgentReply {
    pub timed_out: bool,
    pub exit_code: i32,
    pub stderr: String,
}

/// The result of a command probe.
pub open spec fn probe_result(command: Seq<char>, reply: AgentReply) -> (
    HealthCheckStatus,
    Option<Seq<char>>,
) {
    if reply.timed_out {
        (HealthCheckStatus::Timeout, Some("command timed out: "@ + command))
    } else if reply.exit_code == 0 {
        (HealthCheckStatus::Success, None)
    } else {
        (
            HealthCheckStatus::Failed,
            Some(
                "exit code "@ + signed_decimal(reply.exit_code as int) + ": "@ + trimmed(
                    reply.stderr@,
                ),
            ),
        )
    }
}

/// The result of a command probe, from the agent's answer.
pub fn probe_outcome(command: &str, reply: &AgentReply) -> (r: (HealthCheckStatus, Option<String>))
    ensures
        (r.0, opt_str(r.1)) == probe_result(command@, *reply),
{
    if reply.timed_out {
        (HealthCheckStatus::Timeout, Some(cat2("command timed out: ", command)))
    } else if reply.exit_code == 0 {
        (HealthCheckStatus::Success, None)
    } else {
        let code = decimal_i64(reply.exit_code as i64);
        let text = trim(reply.stderr.as_str());
        (
            HealthCheckStatus::Failed,
            Some(cat4("exit code ", code.as_str(), ": ", text.as_str())),
        )
    }
}

/// The result of a command probe that did not reach the agent.
pub fn probe_failed(text: &str) -> (r: (HealthCheckStatus, Option<String>))
    ensures
        r.0 == HealthCheckStatus::Failed,
        opt_str(r.1) == Some("vsock probe failed: "@ + text@),
{
    (HealthCheckStatus::Failed, Some(cat2("vsock probe failed: ", text)))
}

/// The command that the agent is asked to run: a shell, which reads the line
/// itself.
pub fn probe_command(command: &str) -> (r: Vec<String>)
    ensures
        strs(r@) == seq!["/bin/sh"@, "-c"@, command@],
{
    let mut out: Vec<String> = Vec::new();
    out.push("/bin/sh".to_owned());
    out.push("-c".to_owned());
    out.push(command.to_owned());
    assert(strs(out@) =~= seq!["/bin/sh"@, "-c"@, command@]);
    out
}

// ---------------------------------------------------------------------------
// What counts as an instance
// ---------------------------------------------------------------------------

/// A VM counts towards a worker's replicas exactly where a job would take it for
/// alive; one that does not answer, or that has shut down, never does.
pub proof fn law_replicas_are_live(state: Option<Seq<char>>)
    ensures
        state_accepted(live_states(), state) <==> job_vm_state(state) is Alive,
        !state_accepted(live_states(), None),
        !state_accepted(live_states(), Some("Shutdown"@)),
{
    reveal_strlit("Running");
    reveal_strlit("Created");
    reveal_strlit("Booting");
    reveal_strlit("Shutdown");
    if live_states().contains("Shutdown"@) {
        let i = choose|i: int| 0 <= i < live_states().len() && live_states()[i] == "Shutdown"@;
        assert(live_states()[i][0] == "Shutdown"@[0]);
    }
}

// ---------------------------------------------------------------------------
// Ticks
// ---------------------------------------------------------------------------

/// A deleted deployment loses its instances whatever its kind; of the others
/// exactly those of the kind `job` go on as jobs.
pub proof fn law_tick_goes_by_status_and_kind(deployment: &Deployment, r: VmTick)
    requires
        call_ensures(begin_tick, (deployment,), r),
    ensures
        r == VmTick::RemoveAll <==> deployment.status == DeploymentStatus::Deleted,
        r == VmTick::Job <==> deployment.status != DeploymentStatus::Deleted && deployment.kind@
            == "job"@,
        r == VmTick::Worker <==> deployment.status != DeploymentStatus::Deleted && deployment.kind@
            != "job"@,
{
}

/// A worker's tick moves by at most one VM towards the declared number, and the
/// deployment's instances become those that were found. None is started in the
/// crash loop status, but one too many is still stopped there, the first one.
pub proof fn law_worker_tick_scales_by_one(
    deployment: &mut Deployment,
    found: Vec<String>,
    r: VmWorkerAction,
)
    requires
        call_ensures(worker_found, (deployment, found), r),
    ensures
        ({
            let looping = old(deployment).status == DeploymentStatus::CrashLoopBackOff;
            let replicas = old(deployment).replicas;
            &&& r is Start <==> found@.len() < replicas && !looping
            &&& r is Stop <==> found@.len() > replicas
            &&& r matches VmWorkerAction::Stop(id) ==> id@ == found@[0]@ && final(deployment).instances@ == found@.subrange(1, found@.len() as int)
            &&& !(r is Stop) ==> final(deployment).instances@ == found@
        }),
        final(deployment).status == old(deployment).status,
        final(deployment).restart_count == old(deployment).restart_count,
        final(deployment).log() == old(deployment).log(),
{
}

/// A VM that was started is recorded at the end; a worker that is coming up runs
/// then, and a job runs in any case. Neither uses up a restart.
pub proof fn law_started_vm_is_recorded(
    worker: &mut Deployment,
    job: &mut Deployment,
    instance_id: String,
)
    requires
        call_ensures(worker_started, (worker, instance_id), ()),
        call_ensures(job_started, (job, instance_id), ()),
    ensures
        final(worker).instances@.len() == old(worker).instances@.len() + 1,
        final(worker).instances@.last() == instance_id,
        old(worker).status == DeploymentStatus::Creating || old(worker).status
            == DeploymentStatus::Pending ==> final(worker).status == DeploymentStatus::Running,
        !(old(worker).status == DeploymentStatus::Creating || old(worker).status
            == DeploymentStatus::Pending) ==> final(worker).status == old(worker).status,
        final(worker).restart_count == old(worker).restart_count,
        final(job).instances@.len() == old(job).instances@.len() + 1,
        final(job).instances@.last() == instance_id,
        final(job).status == DeploymentStatus::Running,
        final(job).restart_count == old(job).restart_count,
{
}

/// A VM that could not be started for good ends worker and job alike, without a
/// restart being counted. Any other failure counts one, and where that spends
/// the budget the worker is left in the crash loop and the job has failed.
pub proof fn law_failed_start_is_counted(
    worker: &mut Deployment,
    job: &mut Deployment,
    e: &RuntimeError,
)
    requires
        call_ensures(worker_start_failed, (worker, e), ()),
        call_ensures(job_start_failed, (job, e), ()),
    ensures
        ({
            let permanent = *e is FirmwareNotFound || *e is ImageNotFound
                || *e is InsufficientResources;
            &&& permanent ==> final(worker).restart_count == old(worker).restart_count && final(job).restart_count == old(job).restart_count && final(worker).status == final(job).status
            &&& *e is FirmwareNotFound ==> final(job).status == DeploymentStatus::Failed
            &&& *e is ImageNotFound ==> final(job).status == DeploymentStatus::ImagePullBackOff
            &&& *e is InsufficientResources ==> final(job).status
                == DeploymentStatus::InsufficientResources
            &&& !permanent ==> final(worker).restart_count == old(worker).restart_count + 1
                && final(job).restart_count == old(job).restart_count + 1
            &&& !permanent && final(worker).restart_count >= 5 ==> final(worker).status
                == DeploymentStatus::CrashLoopBackOff
            &&& !permanent && final(worker).restart_count < 5 ==> final(worker).status == old(
                worker,
            ).status
            &&& !permanent && final(job).restart_count >= 5 ==> final(job).status
                == DeploymentStatus::Failed
            &&& !permanent && final(job).restart_count < 5 ==> final(job).status == old(job).status
        }),
        final(worker).log().len() == old(worker).log().len() + 1,
        final(job).log().len() == old(job).log().len() + 1,
        final(worker).instances@ == old(worker).instances@,
        final(job).instances@ == old(job).instances@,
{
}

/// A job that has ended in whatever way is not looked at again. Of any other one
/// the first instance is asked for its state; a running job without an instance
/// has completed, and only one that is coming up is started.
pub proof fn law_job_tick_begins(
    deployment: &Deployment,
    r: VmJobAction,
    scanned: &mut Deployment,
    first: Option<String>,
    next: VmJobAction,
)
    requires
        call_ensures(job_begin, (deployment,), r),
        call_ensures(job_scanned, (scanned, first), next),
    ensures
        r is Done || r is Scan,
        r is Done <==> (deployment.status == DeploymentStatus::Completed || deployment.status
            == DeploymentStatus::Failed || deployment.status == DeploymentStatus::CrashLoopBackOff),
        next is QueryState <==> first is Some,
        next matches VmJobAction::QueryState(id) ==> id@ == first->0@,
        next is CleanUp <==> first is None && old(scanned).status == DeploymentStatus::Running,
        next is Start <==> first is None && (old(scanned).status == DeploymentStatus::Creating
            || old(scanned).status == DeploymentStatus::Pending),
        next is CleanUp ==> final(scanned).status == DeploymentStatus::Completed && final(scanned).instances@.len() == 0 && final(scanned).log().len() == old(scanned).log().len() + 1,
        !(next is CleanUp) ==> *final(scanned) == *old(scanned),
{
}

/// What a job makes of the state that the VMM names. A job has completed exactly
/// where its guest has shut down, and runs where its VM is up or coming up; a
/// VMM that does not answer uses up one restart and fails the job exactly where
/// the budget is spent. The VM is stopped in these two cases and kept in the
/// others.
pub proof fn law_job_ends_as_its_vm(
    named: &Option<String>,
    state: JobVmState,
    deployment: &mut Deployment,
    instance_id: String,
    r: VmJobAction,
)
    requires
        call_ensures(read_job_state, (named,), state),
        call_ensures(job_state_known, (deployment, instance_id, state), r),
    ensures
        ({
            let was = old(deployment).status;
            let up = *named matches Some(s) && (s@ == "Running"@ || s@ == "Created"@ || s@
                == "Booting"@);
            let down = *named matches Some(s) && s@ == "Shutdown"@;
            let silent = *named is None;
            &&& r is Stop <==> down || silent
            &&& r is Done <==> !(down || silent)
            &&& r matches VmJobAction::Stop(id) ==> id@ == instance_id@
            &&& down || silent ==> final(deployment).instances@.len() == 0
            &&& !(down || silent) ==> final(deployment).instances@.len() == 1 && final(deployment).instances@[0]@ == instance_id@
            &&& down ==> final(deployment).status == DeploymentStatus::Completed
            &&& up && (was == DeploymentStatus::Creating || was == DeploymentStatus::Pending)
                ==> final(deployment).status == DeploymentStatus::Running
            &&& up && !(was == DeploymentStatus::Creating || was == DeploymentStatus::Pending)
                ==> final(deployment).status == was
            &&& !up && !down && !silent ==> final(deployment).status == was
            &&& silent ==> final(deployment).restart_count == old(deployment).restart_count + 1
            &&& !silent ==> final(deployment).restart_count == old(deployment).restart_count
            &&& silent && final(deployment).restart_count >= 5 ==> final(deployment).status
                == DeploymentStatus::Failed
            &&& silent && final(deployment).restart_count < 5 ==> final(deployment).status == was
        }),
{
    reveal_strlit("Running");
    reveal_strlit("Created");
    reveal_strlit("Booting");
    reveal_strlit("Shutdown");
    assert("Shutdown"@[0] == 'S');
    assert("Running"@[0] == 'R');
    assert("Created"@[0] == 'C');
    assert("Booting"@[0] == 'B');
    assert(live_states()[0] == "Running"@);
    assert(live_states()[1] == "Created"@);
    assert(live_states()[2] == "Booting"@);
    let ids = final(deployment).instances@;
    assert(strs(ids).len() == ids.len());
    if ids.len() == 1 {
        assert(strs(ids)[0] == ids[0]@);
    }
}

/// A command probe succeeds exactly where the command ended in time with code
/// zero, and is a timeout exactly where it did not end in time, whatever code is
/// reported. Only a success has nothing to say.
pub proof fn law_probe_needs_code_zero_in_time(
    command: &str,
    reply: &AgentReply,
    r: (HealthCheckStatus, Option<String>),
    lost: &str,
    unreached: (HealthCheckStatus, Option<String>),
)
    requires
        call_ensures(probe_outcome, (command, reply), r),
        call_ensures(probe_failed, (lost,), unreached),
    ensures
        r.0 == HealthCheckStatus::Timeout <==> reply.timed_out,
        r.0 == HealthCheckStatus::Success <==> !reply.timed_out && reply.exit_code == 0,
        r.1 is None <==> r.0 == HealthCheckStatus::Success,
        r.0 == HealthCheckStatus::Failed ==> trimmed(reply.stderr@).is_suffix_of(r.1->0@),
        unreached.0 == HealthCheckStatus::Failed,
        unreached.1 is Some,
{
    if r.0 == HealthCheckStatus::Failed {
        let text = r.1->0@;
        let tail = trimmed(reply.stderr@);
        assert(text.subrange(text.len() - tail.len(), text.len() as int) =~= tail);
    }
}

/// Everything of a deleted deployment is forgotten but the deployment itself.
pub proof fn law_stopped_instances_are_forgotten(deployment: &mut Deployment)
    requires
        call_ensures(all_stopped, (deployment,), ()),
    ensures
        final(deployment).instances@.len() == 0,
        final(deployment).status == old(deployment).status,
        final(deployment).restart_count == old(deployment).restart_count,
        final(deployment).log() == old(deployment).log(),
{
}

/// The files that go with an instance are its disk, the image for its first boot,
/// its console log and its socket device, and the thousand backups that the log can
/// have had, each at its own path.
pub proof fn law_files_go_with_their_instance(
    l: &CloudHypervisorLifecycle,
    id: &str,
    idx: u32,
    disk: String,
    iso: String,
    console: String,
    vsock: String,
    log: &str,
    backup: String,
    r: Vec<String>,
    stale: Vec<String>,
)
    requires
        1 <= idx <= 1000,
        call_ensures(CloudHypervisorLifecycle::instance_image_path, (l, id), disk),
        call_ensures(CloudHypervisorLifecycle::cidata_iso_path, (l, id), iso),
        call_ensures(CloudHypervisorLifecycle::console_log_path, (l, id), console),
        call_ensures(CloudHypervisorLifecycle::vsock_path, (l, id), vsock),
        log@ == console@,
        call_ensures(backup_path, (log, idx), backup),
        call_ensures(instance_artifacts, (l, id), r),
        call_ensures(stale_backups, (l, id), stale),
    ensures
        r@.len() == 4,
        strs(r@).contains(disk@),
        strs(r@).contains(iso@),
        strs(r@).contains(console@),
        strs(r@).contains(vsock@),
        stale@.len() == 1000,
        stale@[idx - 1]@ == backup@,
{
    let all = strs(r@);
    assert(all.len() == r@.len());
    assert(all[0] == disk@ && all[1] == iso@ && all[2] == console@ && all[3] == vsock@);
    let old = strs(stale@);
    assert(old.len() == stale@.len());
    assert(old[idx - 1] == stale@[idx - 1]@);
}

/// A worker's instances are those that run or are about to; only those that run are
/// listed. A probe is run by a shell, as it is written.
pub proof fn law_live_states_are_counted(
    live: Vec<String>,
    listed: Vec<String>,
    command: &str,
    r: Vec<String>,
    state: Seq<char>,
)
    requires
        call_ensures(worker_states, (), live),
        call_ensures(listed_states, (), listed),
        call_ensures(probe_command, (command,), r),
    ensures
        strs(live@).contains(state) <==> state == "Running"@ || state == "Created"@ || state
            == "Booting"@,
        strs(listed@).contains(state) <==> state == "Running"@,
        r@.len() == 3 && r@[0]@ == "/bin/sh"@ && r@[1]@ == "-c"@ && r@[2]@ == command@,
{
    let a = strs(live@);
    assert(a.len() == 3 && a[0] == "Running"@ && a[1] == "Created"@ && a[2] == "Booting"@);
    let b = strs(listed@);
    assert(b.len() == 1 && b[0] == "Running"@);
    let c = strs(r@);
    assert(c.len() == r@.len());
    assert(c[0] == r@[0]@ && c[1] == r@[1]@ && c[2] == r@[2]@);
}

} // verus!
