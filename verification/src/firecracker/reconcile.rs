//! What a tick does with the machines of a deployment, which of them are listed,
//! and how an instance is taken down.
use vstd::prelude::*;
use crate::classifier::{apply_vm_start_failure, classify_vm_start_error, restarts_after_vm_failure, status_after_vm_failure, vm_start_verdict};
use crate::cloud_hypervisor::reconcile::{is_coming_up, job_has_ended};
use crate::entries::{contains_text, lemma_contains_pushed};
use crate::error::{RuntimeError, RuntimeErrorView, error_text};
use crate::firecracker::lifecycle::{FirecrackerLifecycle, machine_file};
use crate::models::{Deployment, DeploymentStatus, EventView, MAX_RESTART_COUNT, event};
use crate::text::{cat3, decimal, decimal_u64, same, strs};

verus! {

/// The part of the system that events are reported under.
pub const COMPONENT: &'static str = "firecracker";

/// The port that the agent in a guest listens on.
pub const RING_AGENT_VSOCK_PORT: u32 = 2375;

// ---------------------------------------------------------------------------
// Liveness
// ---------------------------------------------------------------------------

/// Whether a status records a failure that must not be hidden by another
/// instance that is alive.
pub open spec fn keeps_failure(status: DeploymentStatus) -> bool {
    ||| status == DeploymentStatus::CreateContainerError
    ||| status == DeploymentStatus::CrashLoopBackOff
    ||| status == DeploymentStatus::ImagePullBackOff
    ||| status == DeploymentStatus::ConfigError
    ||| status == DeploymentStatus::InsufficientResources
    ||| status == DeploymentStatus::Failed
}

/// The status after a look at the instances, where it changes.
pub open spec fn confirmed_status(current: DeploymentStatus, any_alive: bool) -> Option<
    DeploymentStatus,
> {
    if any_alive && !keeps_failure(current) {
        Some(DeploymentStatus::Running)
    } else {
        None
    }
}

/// The status after a look at the instances, where it changes: running only
/// when some instance is alive, and never over a recorded failure.
pub fn liveness_confirmed_status(current: &DeploymentStatus, any_alive: bool) -> (r: Option<
    DeploymentStatus,
>)
    ensures
        r == confirmed_status(*current, any_alive),
{
    let status = *current;
    if status == DeploymentStatus::CreateContainerError || status
        == DeploymentStatus::CrashLoopBackOff || status == DeploymentStatus::ImagePullBackOff
        || status == DeploymentStatus::ConfigError || status
        == DeploymentStatus::InsufficientResources || status == DeploymentStatus::Failed {
        return None;
    }
    if any_alive {
        Some(DeploymentStatus::Running)
    } else {
        None
    }
}

/// Which instances a listing asks for.
#[derive(Clone, Copy, Debug, PartialEq, Eq, Structural)]
pub enum FcFilter {
    /// All of them.
    Any,
    /// Those that are alive, or those that are not.
    Alive(bool),
    /// The filter is not known: none.
    Nothing,
}

/// Which instances a filter's name asks for.
pub open spec fn filter_named(status: Seq<char>) -> FcFilter {
    if status == "all"@ {
        FcFilter::Any
    } else if status == "active"@ || status == "running"@ {
        FcFilter::Alive(true)
    } else if status == "exited"@ || status == "stopped"@ {
        FcFilter::Alive(false)
    } else {
        FcFilter::Nothing
    }
}

/// Which instances a filter's name asks for. A machine is alive or it is not;
/// no other state can be seen.
pub fn fc_liveness_for_status(status: &str) -> (r: FcFilter)
    ensures
        r == filter_named(status@),
{
    if same(status, "all") {
        FcFilter::Any
    } else if same(status, "active") || same(status, "running") {
        FcFilter::Alive(true)
    } else if same(status, "exited") || same(status, "stopped") {
        FcFilter::Alive(false)
    } else {
        FcFilter::Nothing
    }
}

/// Whether an instance is alive: its control socket is on disk, and a live VMM
/// serves exactly that socket.
pub open spec fn is_alive(dir: Seq<char>, id: Seq<char>, on_disk: bool, live: Seq<Seq<char>>) -> bool {
    on_disk && live.contains(machine_file(dir, id, ".sock"@))
}

/// The instances that a filter keeps, in their order.
pub open spec fn filtered(
    dir: Seq<char>,
    ids: Seq<Seq<char>>,
    on_disk: Seq<bool>,
    live: Seq<Seq<char>>,
    filter: FcFilter,
) -> Seq<Seq<char>>
    decreases ids.len(),
{
    if ids.len() == 0 {
        seq![]
    } else {
        let last = ids.len() - 1;
        let rest = filtered(dir, ids.drop_last(), on_disk, live, filter);
        let kept = match filter {
            FcFilter::Any => true,
            FcFilter::Alive(want) => is_alive(dir, ids[last], on_disk[last], live) == want,
            FcFilter::Nothing => false,
        };
        if kept {
            rest.push(ids[last])
        } else {
            rest
        }
    }
}

/// The instances that a listing asks for. `on_disk` says of each whether its
/// control socket is there, and `live` names the sockets that a live VMM
/// serves.
pub fn list_instances(
    lifecycle: &FirecrackerLifecycle,
    ids: &Vec<String>,
    on_disk: &Vec<bool>,
    live: &Vec<String>,
    status: &str,
) -> (r: Vec<String>)
    requires
        ids.len() == on_disk.len(),
    ensures
        strs(r@) == filtered(
            lifecycle.config.socket_dir@,
            strs(ids@),
            on_disk@,
            strs(live@),
            filter_named(status@),
        ),
{
    let filter = fc_liveness_for_status(status);
    let ghost dir = lifecycle.config.socket_dir@;
    let ghost all = strs(ids@);
    let mut out: Vec<String> = Vec::new();
    let mut i: usize = 0;
    assert(strs(out@) =~= filtered(dir, all.take(0), on_disk@, strs(live@), filter));
    while i < ids.len()
        invariant
            i <= ids.len(),
            ids.len() == on_disk.len(),
            dir == lifecycle.config.socket_dir@,
            all == strs(ids@),
            strs(out@) == filtered(dir, all.take(i as int), on_disk@, strs(live@), filter),
        decreases ids.len() - i,
    {
        assert(all.take(i + 1).drop_last() =~= all.take(i as int));
        assert(all.take(i + 1)[i as int] == ids@[i as int]@);
        let ghost before = out@;
        let keep = match filter {
            FcFilter::Any => true,
            FcFilter::Alive(want) => {
                let socket = lifecycle.socket_path(ids[i].as_str());
                let alive = on_disk[i] && contains_text(live, socket.as_str());
                alive == want
            },
            FcFilter::Nothing => false,
        };
        if keep {
            out.push(ids[i].clone());
            assert(strs(out@) =~= strs(before).push(ids@[i as int]@));
        }
        i += 1;
    }
    assert(all.take(all.len() as int) =~= all);
    out
}

// ---------------------------------------------------------------------------
// Workers
// ---------------------------------------------------------------------------

/// What a tick does to reach the declared number of replicas.
#[derive(Debug)]
pub enum FleetAction {
    /// Nothing.
    Settled,
    /// Start this many machines, up to the first one that fails.
    Start(usize),
    /// Stop these machines.
    Stop(Vec<String>),
}

/// Take stock of a worker's instances: the missing ones are started, those past
/// the declared number are stopped.
pub fn worker_found(deployment: &Deployment, found: &Vec<String>) -> (r: FleetAction)
    ensures
        match r {
            FleetAction::Settled => found.len() == deployment.replicas,
            FleetAction::Start(n) => found.len() < deployment.replicas && n == deployment.replicas
                - found.len(),
            FleetAction::Stop(ids) => found.len() > deployment.replicas && strs(ids@) == strs(
                found@,
            ).skip(deployment.replicas as int),
        },
{
    let desired: usize = deployment.replicas as usize;
    if found.len() < desired {
        return FleetAction::Start(desired - found.len());
    }
    if found.len() > desired {
        let mut ids: Vec<String> = Vec::new();
        let mut i: usize = desired;
        while i < found.len()
            invariant
                desired <= i <= found.len(),
                ids.len() == i - desired,
                forall|j: int| 0 <= j < ids.len() ==> (#[trigger] ids@[j])@ == found@[desired + j]@,
            decreases found.len() - i,
        {
            ids.push(found[i].clone());
            i += 1;
        }
        assert(strs(ids@) =~= strs(found@).skip(desired as int));
        return FleetAction::Stop(ids);
    }
    FleetAction::Settled
}

/// The status of a worker after a machine failed to start: a permanent failure
/// has its own; one that can be retried stays visible as a create error until
/// the restart budget is spent.
pub open spec fn status_after_boot_failure(restarts: int, e: RuntimeErrorView) -> DeploymentStatus {
    match vm_start_verdict(e).0 {
        Some(terminal) => terminal,
        None => if restarts + 1 >= MAX_RESTART_COUNT {
            DeploymentStatus::CrashLoopBackOff
        } else {
            DeploymentStatus::CreateContainerError
        },
    }
}

/// Record a machine of a worker that could not be started.
pub fn worker_boot_failed(deployment: &mut Deployment, e: &RuntimeError)
    requires
        vm_start_verdict(e@).0 is None ==> old(deployment).restart_count < u32::MAX,
    ensures
        final(deployment).log() == old(deployment).log().push(
            event("error"@, error_text(e@), "firecracker"@, vm_start_verdict(e@).1),
        ),
        final(deployment).restart_count == restarts_after_vm_failure(
            old(deployment).restart_count as int,
            e@,
        ),
        final(deployment).status == status_after_boot_failure(
            old(deployment).restart_count as int,
            e@,
        ),
        *final(deployment) == (Deployment {
            status: final(deployment).status,
            restart_count: final(deployment).restart_count,
            pending_events: final(deployment).pending_events,
            ..*old(deployment)
        }),
{
    let terminal = classify_vm_start_error(e).0.is_some();
    apply_vm_start_failure(deployment, e, COMPONENT, DeploymentStatus::CrashLoopBackOff);
    if !terminal && deployment.restart_count < MAX_RESTART_COUNT {
        deployment.status = DeploymentStatus::CreateContainerError;
    }
}

/// End a worker's tick with the instances that are there and whether any of
/// them is alive.
pub fn worker_end(deployment: &mut Deployment, found: Vec<String>, any_alive: bool)
    ensures
        final(deployment).instances == found,
        final(deployment).status == match confirmed_status(old(deployment).status, any_alive) {
            Some(status) => status,
            None => old(deployment).status,
        },
        *final(deployment) == (Deployment {
            status: final(deployment).status,
            instances: found,
            ..*old(deployment)
        }),
{
    deployment.instances = found;
    if let Some(status) = liveness_confirmed_status(&deployment.status, any_alive) {
        deployment.status = status;
    }
}

// ---------------------------------------------------------------------------
// Jobs
// ---------------------------------------------------------------------------

/// What is to be done for a job.
#[derive(Debug)]
pub enum MachineJobAction {
    /// The tick is over.
    Done,
    /// Stop this machine. The tick is over.
    Stop(String),
    /// Start the machine and report the result.
    Start,
}

/// A [`MachineJobAction`] by its contents.
pub enum MachineJobView {
    Done,
    Stop(Seq<char>),
    Start,
}

impl View for MachineJobAction {
    type V = MachineJobView;

    open spec fn view(&self) -> MachineJobView {
        match *self {
            MachineJobAction::Done => MachineJobView::Done,
            MachineJobAction::Stop(id) => MachineJobView::Stop(id@),
            MachineJobAction::Start => MachineJobView::Start,
        }
    }
}

/// Whether a job's tick has anything to do: a job that has ended is never booted
/// again.
pub fn job_is_open(deployment: &Deployment) -> (r: bool)
    ensures
        r == !job_has_ended(deployment.status),
{
    !(deployment.status == DeploymentStatus::Completed || deployment.status
        == DeploymentStatus::Failed || deployment.status == DeploymentStatus::CrashLoopBackOff)
}

/// What a job's tick does, given its first instance and whether that is alive.
pub open spec fn machine_job_action(d: &Deployment, first: Option<(Seq<char>, bool)>) -> MachineJobView {
    match first {
        Some(p) => if p.1 {
            MachineJobView::Done
        } else {
            MachineJobView::Stop(p.0)
        },
        None => if is_coming_up(d.status) {
            MachineJobView::Start
        } else {
            MachineJobView::Done
        },
    }
}

/// The events after a job's tick.
pub open spec fn machine_job_log(d: &Deployment, first: Option<(Seq<char>, bool)>) -> Seq<EventView> {
    match first {
        Some(p) => if p.1 {
            d.log()
        } else {
            d.log().push(
                event(
                    "info"@,
                    "Job VM "@ + p.0 + " completed"@,
                    "firecracker"@,
                    "job_completed"@,
                ),
            )
        },
        None => if d.status == DeploymentStatus::Running {
            d.log().push(
                event(
                    "info"@,
                    "Job VM exited and firecracker terminated; finalized as completed"@,
                    "firecracker"@,
                    "job_completed"@,
                ),
            )
        } else {
            d.log()
        },
    }
}

/// The status after a job's tick.
pub open spec fn machine_job_status(d: &Deployment, first: Option<(Seq<char>, bool)>) -> DeploymentStatus {
    match first {
        Some(p) => if !p.1 {
            DeploymentStatus::Completed
        } else if is_coming_up(d.status) {
            DeploymentStatus::Running
        } else {
            d.status
        },
        None => if d.status == DeploymentStatus::Running {
            DeploymentStatus::Completed
        } else {
            d.status
        },
    }
}

/// The instances after a job's tick.
pub open spec fn machine_job_instances(d: &Deployment, first: Option<(Seq<char>, bool)>) -> Seq<
    Seq<char>,
> {
    match first {
        Some(p) => if p.1 {
            seq![p.0]
        } else {
            Seq::empty()
        },
        None => if d.status == DeploymentStatus::Running {
            Seq::empty()
        } else {
            d.instance_ids()
        },
    }
}

/// The first instance of a job and whether it is alive, by its contents.
pub open spec fn found_view(first: Option<(String, bool)>) -> Option<(Seq<char>, bool)> {
    match first {
        Some(p) => Some((p.0@, p.1)),
        None => None,
    }
}

/// Go on with a job's tick, given its first instance and whether that is alive.
/// The VMM's process ends when the guest powers off, so a job whose machine is
/// not alive any more, or is gone after it was running, has completed.
pub fn job_found(deployment: &mut Deployment, first: Option<(String, bool)>) -> (r: MachineJobAction)
    requires
        !job_has_ended(old(deployment).status),
    ensures
        r@ == machine_job_action(old(deployment), found_view(first)),
        final(deployment).status == machine_job_status(old(deployment), found_view(first)),
        final(deployment).instance_ids() == machine_job_instances(
            old(deployment),
            found_view(first),
        ),
        final(deployment).log() == machine_job_log(old(deployment), found_view(first)),
        *final(deployment) == (Deployment {
            status: final(deployment).status,
            instances: final(deployment).instances,
            pending_events: final(deployment).pending_events,
            ..*old(deployment)
        }),
{
    match first {
        Some((id, alive)) => {
            if alive {
                let mut list: Vec<String> = Vec::new();
                list.push(id);
                assert(strs(list@) =~= seq![id@]);
                deployment.instances = list;
                if deployment.status == DeploymentStatus::Creating || deployment.status
                    == DeploymentStatus::Pending {
                    deployment.status = DeploymentStatus::Running;
                }
                MachineJobAction::Done
            } else {
                deployment.instances.clear();
                assert(strs(deployment.instances@) =~= Seq::empty());
                deployment.status = DeploymentStatus::Completed;
                deployment.emit_event(
                    "info",
                    cat3("Job VM ", id.as_str(), " completed"),
                    COMPONENT,
                    "job_completed",
                );
                MachineJobAction::Stop(id)
            }
        },
        None => {
            if deployment.status == DeploymentStatus::Running {
                deployment.instances.clear();
                assert(strs(deployment.instances@) =~= Seq::empty());
                deployment.status = DeploymentStatus::Completed;
                deployment.emit_event(
                    "info",
                    "Job VM exited and firecracker terminated; finalized as completed".to_owned(),
                    COMPONENT,
                    "job_completed",
                );
                return MachineJobAction::Done;
            }
            if deployment.status == DeploymentStatus::Creating || deployment.status
                == DeploymentStatus::Pending {
                return MachineJobAction::Start;
            }
            MachineJobAction::Done
        },
    }
}

/// Record the machine of a job that was started.
pub fn job_started(deployment: &mut Deployment, instance_id: String)
    ensures
        final(deployment).instance_ids() == seq![instance_id@],
        final(deployment).status == DeploymentStatus::Running,
        *final(deployment) == (Deployment {
            status: final(deployment).status,
            instances: final(deployment).instances,
            ..*old(deployment)
        }),
{
    let mut list: Vec<String> = Vec::new();
    list.push(instance_id);
    assert(strs(list@) =~= seq![instance_id@]);
    deployment.instances = list;
    deployment.status = DeploymentStatus::Running;
}

/// Record the machine of a job that could not be started.
pub fn job_start_failed(deployment: &mut Deployment, e: &RuntimeError)
    requires
        vm_start_verdict(e@).0 is None ==> old(deployment).restart_count < u32::MAX,
    ensures
        final(deployment).log() == old(deployment).log().push(
            event("error"@, error_text(e@), "firecracker"@, vm_start_verdict(e@).1),
        ),
        final(deployment).restart_count == restarts_after_vm_failure(
            old(deployment).restart_count as int,
            e@,
        ),
        final(deployment).status == status_after_vm_failure(
            old(deployment).status,
            old(deployment).restart_count as int,
            e@,
            DeploymentStatus::Failed,
        ),
        *final(deployment) == (Deployment {
            status: final(deployment).status,
            restart_count: final(deployment).restart_count,
            pending_events: final(deployment).pending_events,
            ..*old(deployment)
        }),
{
    apply_vm_start_failure(deployment, e, COMPONENT, DeploymentStatus::Failed);
}

// ---------------------------------------------------------------------------
// Taking an instance down
// ---------------------------------------------------------------------------

/// The files that are removed with an instance.
pub open spec fn machine_files(dir: Seq<char>, id: Seq<char>) -> Seq<Seq<char>> {
    seq![
        machine_file(dir, id, ".sock"@),
        machine_file(dir, id, ".ext4"@),
        machine_file(dir, id, ".cidata.iso"@),
        machine_file(dir, id, ".console.log"@),
        machine_file(dir, id, ".vsock"@),
        machine_file(dir, id, ".vsock"@) + "_"@ + decimal(2375),
    ]
}

/// The files that are removed with an instance, its control socket first. The
/// backups of the console log and the images of its own volumes go too.
pub fn instance_files(lifecycle: &FirecrackerLifecycle, instance_id: &str) -> (r: Vec<String>)
    ensures
        strs(r@) == machine_files(lifecycle.config.socket_dir@, instance_id@),
{
    let mut out: Vec<String> = Vec::new();
    out.push(lifecycle.socket_path(instance_id));
    out.push(lifecycle.rootfs_path(instance_id));
    out.push(lifecycle.cidata_path(instance_id));
    out.push(lifecycle.console_log_path(instance_id));
    let vsock = lifecycle.vsock_path(instance_id);
    let port = decimal_u64(RING_AGENT_VSOCK_PORT as u64);
    let per_port = cat3(vsock.as_str(), "_", port.as_str());
    out.push(vsock);
    out.push(per_port);
    assert(strs(out@) =~= machine_files(lifecycle.config.socket_dir@, instance_id@));
    out
}

/// The backup of a console log that is removed next, given the number that was
/// tried last, zero at first, and whether it was there. The first one that is
/// missing ends the search, and so does the bound.
pub fn next_stale_backup(tried: u32, there: bool) -> (r: Option<u32>)
    ensures
        r == if there && tried < 1000 {
            Some((tried + 1) as u32)
        } else {
            None
        },
{
    if there && tried < 1000 {
        Some(tried + 1)
    } else {
        None
    }
}

/// What is done after a look whether a process is still there.
#[derive(Clone, Copy, Debug, PartialEq, Eq, Structural)]
pub enum KillAction {
    /// Nothing more: it is gone, or it was waited for long enough.
    Stop,
    /// Wait and look again.
    Wait,
    /// Kill it, wait and look again.
    KillAndWait,
}

/// What is done after look number `i`, from zero on, at a process that was
/// asked to end. It is given about a second in all, and is killed when it is
/// still there after a third of that.
pub fn after_look(i: u32, alive: bool) -> (r: KillAction)
    ensures
        r == if !alive || i >= 20 {
            KillAction::Stop
        } else if i == 5 {
            KillAction::KillAndWait
        } else {
            KillAction::Wait
        },
{
    if !alive || i >= 20 {
        KillAction::Stop
    } else if i == 5 {
        KillAction::KillAndWait
    } else {
        KillAction::Wait
    }
}

// ---------------------------------------------------------------------------
// Laws
// ---------------------------------------------------------------------------

/// A worker is only reported as running when some instance is alive, and a
/// recorded failure outlives any instance that is.
pub proof fn law_running_means_alive(current: DeploymentStatus, any_alive: bool)
    ensures
        confirmed_status(current, any_alive) is Some ==> any_alive && confirmed_status(
            current,
            any_alive,
        ) == Some(DeploymentStatus::Running),
        keeps_failure(current) ==> confirmed_status(current, any_alive) is None,
        !any_alive ==> confirmed_status(current, any_alive) is None,
{
}

/// A worker whose machine failed to start keeps the status of that failure
/// through the look at its instances.
pub proof fn law_boot_failure_is_kept(restarts: int, e: RuntimeErrorView, any_alive: bool)
    ensures
        keeps_failure(status_after_boot_failure(restarts, e)),
        confirmed_status(status_after_boot_failure(restarts, e), any_alive) is None,
{
}

/// A filter that is not known lists nothing, and the two that ask for liveness
/// between them list every instance once: what is in one of their lists are the
/// instances, and where no instance is there twice, none is in both lists or
/// twice in one.
pub proof fn law_filters_partition(
    dir: Seq<char>,
    ids: Seq<Seq<char>>,
    on_disk: Seq<bool>,
    live: Seq<Seq<char>>,
)
    ensures
        filtered(dir, ids, on_disk, live, FcFilter::Nothing).len() == 0,
        filtered(dir, ids, on_disk, live, FcFilter::Any) == ids,
        ({
            let alive = filtered(dir, ids, on_disk, live, FcFilter::Alive(true));
            let dead = filtered(dir, ids, on_disk, live, FcFilter::Alive(false));
            &&& alive.len() + dead.len() == ids.len()
            &&& forall|id: Seq<char>|
                #[trigger] ids.contains(id) <==> alive.contains(id) || dead.contains(id)
            &&& ids.no_duplicates() ==> {
                &&& alive.no_duplicates()
                &&& dead.no_duplicates()
                &&& forall|id: Seq<char>| !(#[trigger] alive.contains(id) && dead.contains(id))
            }
        }),
    decreases ids.len(),
{
    let alive = filtered(dir, ids, on_disk, live, FcFilter::Alive(true));
    let dead = filtered(dir, ids, on_disk, live, FcFilter::Alive(false));
    if ids.len() > 0 {
        let init = ids.drop_last();
        let last = ids.last();
        let alive_before = filtered(dir, init, on_disk, live, FcFilter::Alive(true));
        let dead_before = filtered(dir, init, on_disk, live, FcFilter::Alive(false));
        law_filters_partition(dir, init, on_disk, live);
        assert(init.push(last) =~= ids);
        assert forall|id: Seq<char>|
            #[trigger] ids.contains(id) <==> alive.contains(id) || dead.contains(id) by {
            lemma_contains_pushed(init, last, id);
            lemma_contains_pushed(alive_before, last, id);
            lemma_contains_pushed(dead_before, last, id);
        }
        if ids.no_duplicates() {
            assert(init.no_duplicates());
            assert(!init.contains(last)) by {
                if init.contains(last) {
                    let i = choose|i: int| 0 <= i < init.len() && init[i] == last;
                    assert(ids[i] == ids[ids.len() - 1]);
                }
            }
            assert(!alive_before.contains(last) && !dead_before.contains(last));
            assert forall|id: Seq<char>| !(#[trigger] alive.contains(id) && dead.contains(id)) by {
                lemma_contains_pushed(alive_before, last, id);
                lemma_contains_pushed(dead_before, last, id);
            }
        }
    } else {
        assert(ids =~= Seq::empty());
    }
}

/// Every file that a machine is given, its disk, its console, its socket device
/// and its control socket, is removed with the instance.
pub proof fn law_machine_files_are_removed(dir: Seq<char>, id: Seq<char>)
    ensures
        machine_files(dir, id).contains(machine_file(dir, id, ".sock"@)),
        machine_files(dir, id).contains(machine_file(dir, id, ".ext4"@)),
        machine_files(dir, id).contains(machine_file(dir, id, ".cidata.iso"@)),
        machine_files(dir, id).contains(machine_file(dir, id, ".console.log"@)),
        machine_files(dir, id).contains(machine_file(dir, id, ".vsock"@)),
{
    let files = machine_files(dir, id);
    assert(files[0] == machine_file(dir, id, ".sock"@));
    assert(files[1] == machine_file(dir, id, ".ext4"@));
    assert(files[2] == machine_file(dir, id, ".cidata.iso"@));
    assert(files[3] == machine_file(dir, id, ".console.log"@));
    assert(files[4] == machine_file(dir, id, ".vsock"@));
}

/// A worker is reported as running exactly where some instance is alive and no
/// failure is recorded that has to stay visible; otherwise its status stays.
pub proof fn law_status_after_a_look(
    deployment: &mut Deployment,
    found: Vec<String>,
    any_alive: bool,
    r: Option<DeploymentStatus>,
)
    requires
        call_ensures(liveness_confirmed_status, (&old(deployment).status, any_alive), r),
        call_ensures(worker_end, (deployment, found, any_alive), ()),
    ensures
        ({
            let was = old(deployment).status;
            let kept = was == DeploymentStatus::CreateContainerError || was
                == DeploymentStatus::CrashLoopBackOff || was == DeploymentStatus::ImagePullBackOff
                || was == DeploymentStatus::ConfigError || was
                == DeploymentStatus::InsufficientResources || was == DeploymentStatus::Failed;
            &&& r is Some <==> any_alive && !kept
            &&& r matches Some(status) ==> status == DeploymentStatus::Running
            &&& any_alive && !kept ==> final(deployment).status == DeploymentStatus::Running
            &&& !(any_alive && !kept) ==> final(deployment).status == was
        }),
        final(deployment).instances == found,
        final(deployment).restart_count == old(deployment).restart_count,
{
}

/// Which instances a filter's name asks for.
pub proof fn law_filter_names(status: &str, r: FcFilter)
    requires
        call_ensures(fc_liveness_for_status, (status,), r),
    ensures
        r == FcFilter::Any <==> status@ == "all"@,
        r == FcFilter::Alive(true) <==> status@ == "active"@ || status@ == "running"@,
        r == FcFilter::Alive(false) <==> status@ == "exited"@ || status@ == "stopped"@,
{
    reveal_strlit("all");
    reveal_strlit("active");
    reveal_strlit("running");
    reveal_strlit("exited");
    reveal_strlit("stopped");
    assert("all"@.len() == 3);
    assert("active"@[0] == 'a' && "active"@.len() == 6);
    assert("running"@[0] == 'r');
    assert("exited"@[0] == 'e');
    assert("stopped"@[0] == 's');
}

/// A listing goes through the instances in their order: one more is listed where
/// the filter asks for all, or for the kind that it is of. It is alive exactly
/// where its control socket is on disk and a live VMM serves that very socket.
pub proof fn law_listing_tells_the_living(
    lifecycle: &FirecrackerLifecycle,
    ids: &Vec<String>,
    more: &Vec<String>,
    last: String,
    on_disk: &Vec<bool>,
    more_on_disk: &Vec<bool>,
    there: bool,
    live: &Vec<String>,
    id: &str,
    socket: String,
    status: &str,
    before: Vec<String>,
    after: Vec<String>,
)
    requires
        more@ == ids@.push(last),
        more_on_disk@ == on_disk@.push(there),
        ids@.len() == on_disk@.len(),
        id@ == last@,
        call_ensures(FirecrackerLifecycle::socket_path, (lifecycle, id), socket),
        call_ensures(list_instances, (lifecycle, ids, on_disk, live, status), before),
        call_ensures(list_instances, (lifecycle, more, more_on_disk, live, status), after),
    ensures
        ids@.len() == 0 ==> before@.len() == 0,
        ({
            let alive = there && strs(live@).contains(socket@);
            let wanted = status@ == "all"@ || (alive && (status@ == "active"@ || status@
                == "running"@)) || (!alive && (status@ == "exited"@ || status@ == "stopped"@));
            &&& wanted ==> strs(after@) == strs(before@).push(last@)
            &&& !wanted ==> strs(after@) == strs(before@)
        }),
{
    let filter = filter_named(status@);
    lemma_filter_names_apart(status@);
    assert(strs(more@).drop_last() =~= strs(ids@));
    assert(strs(more@)[ids@.len() as int] == last@);
    assert(strs(before@).len() == before@.len());
    lemma_filtered_prefix(
        lifecycle.config.socket_dir@,
        strs(ids@),
        on_disk@,
        more_on_disk@,
        strs(live@),
        filter,
    );
}

/// The names of the filters are different texts.
proof fn lemma_filter_names_apart(status: Seq<char>)
    ensures
        status == "all"@ ==> status != "active"@ && status != "running"@ && status != "exited"@
            && status != "stopped"@,
        status == "active"@ || status == "running"@ ==> status != "exited"@ && status
            != "stopped"@,
{
    reveal_strlit("all");
    reveal_strlit("active");
    reveal_strlit("running");
    reveal_strlit("exited");
    reveal_strlit("stopped");
    assert("all"@.len() == 3);
    assert("active"@[0] == 'a' && "active"@.len() == 6);
    assert("running"@[0] == 'r');
    assert("exited"@[0] == 'e');
    assert("stopped"@[0] == 's');
}

/// What is listed of some instances does not depend on what is said of others.
proof fn lemma_filtered_prefix(
    dir: Seq<char>,
    ids: Seq<Seq<char>>,
    a: Seq<bool>,
    b: Seq<bool>,
    live: Seq<Seq<char>>,
    filter: FcFilter,
)
    requires
        forall|i: int| 0 <= i < ids.len() ==> a[i] == b[i],
    ensures
        filtered(dir, ids, a, live, filter) == filtered(dir, ids, b, live, filter),
    decreases ids.len(),
{
    if ids.len() > 0 {
        lemma_filtered_prefix(dir, ids.drop_last(), a, b, live, filter);
    }
}

/// A worker that lacks machines is given all that it lacks, and one that has too
/// many loses all that are too many, the last ones: after either there are as
/// many as declared.
pub proof fn law_worker_reaches_its_number(deployment: &Deployment, found: &Vec<String>, r: FleetAction)
    requires
        call_ensures(worker_found, (deployment, found), r),
    ensures
        r is Settled <==> found@.len() == deployment.replicas,
        r is Start <==> found@.len() < deployment.replicas,
        r is Stop <==> found@.len() > deployment.replicas,
        r matches FleetAction::Start(n) ==> found@.len() + n == deployment.replicas,
        r matches FleetAction::Stop(ids) ==> found@.len() - ids@.len() == deployment.replicas
            && strs(ids@).is_suffix_of(strs(found@)),
{
    if let FleetAction::Stop(ids) = r {
        let all = strs(found@);
        let cut = strs(ids@);
        assert(cut.len() == ids@.len());
        assert(all.len() == found@.len());
        assert(all.subrange(all.len() - cut.len(), all.len() as int) =~= cut);
    }
}

/// A machine that could not be started for good ends the worker without a restart
/// being counted. Any other failure counts one and stays visible: as the crash
/// loop where that spends the budget, as a create error before.
pub proof fn law_failed_machine_stays_visible(deployment: &mut Deployment, e: &RuntimeError)
    requires
        call_ensures(worker_boot_failed, (deployment, e), ()),
    ensures
        ({
            let permanent = *e is FirmwareNotFound || *e is ImageNotFound
                || *e is InsufficientResources;
            &&& permanent ==> final(deployment).restart_count == old(deployment).restart_count
            &&& *e is FirmwareNotFound ==> final(deployment).status == DeploymentStatus::Failed
            &&& *e is ImageNotFound ==> final(deployment).status
                == DeploymentStatus::ImagePullBackOff
            &&& *e is InsufficientResources ==> final(deployment).status
                == DeploymentStatus::InsufficientResources
            &&& !permanent ==> final(deployment).restart_count == old(deployment).restart_count + 1
            &&& !permanent && final(deployment).restart_count >= 5 ==> final(deployment).status
                == DeploymentStatus::CrashLoopBackOff
            &&& !permanent && final(deployment).restart_count < 5 ==> final(deployment).status
                == DeploymentStatus::CreateContainerError
        }),
        final(deployment).log().len() == old(deployment).log().len() + 1,
        final(deployment).instances@ == old(deployment).instances@,
{
}

/// A job has completed exactly where its machine is no longer alive, or is gone
/// after the job was running; it runs where its machine is alive and it was
/// coming up. A machine that is dead is stopped, and one is started exactly where
/// there is none and the job is coming up.
pub proof fn law_job_ends_as_its_machine(
    deployment: &mut Deployment,
    first: Option<(String, bool)>,
    r: MachineJobAction,
    open: bool,
)
    requires
        call_ensures(job_is_open, (&*old(deployment),), open),
        call_ensures(job_found, (deployment, first), r),
    ensures
        ({
            let was = old(deployment).status;
            let coming = was == DeploymentStatus::Creating || was == DeploymentStatus::Pending;
            let alive = first matches Some(p) && p.1;
            let dead = first matches Some(p) && !p.1;
            let gone = first is None;
            &&& !open <==> (was == DeploymentStatus::Completed || was == DeploymentStatus::Failed
                || was == DeploymentStatus::CrashLoopBackOff)
            &&& r is Stop <==> dead
            &&& r matches MachineJobAction::Stop(id) ==> first matches Some(p) && id@ == p.0@
            &&& r is Start <==> gone && coming
            &&& dead || (gone && was == DeploymentStatus::Running) ==> final(deployment).status
                == DeploymentStatus::Completed && final(deployment).instances@.len() == 0 && final(deployment).log().len() == old(deployment).log().len() + 1
            &&& alive && coming ==> final(deployment).status == DeploymentStatus::Running
            &&& alive && !coming ==> final(deployment).status == was
            &&& alive ==> final(deployment).instances@.len() == 1
            &&& alive ==> (first matches Some(p) ==> final(deployment).instances@[0]@ == p.0@)
            &&& gone && was != DeploymentStatus::Running ==> final(deployment).status == was
        }),
        final(deployment).restart_count == old(deployment).restart_count,
{
    let ids = final(deployment).instances@;
    assert(strs(ids).len() == ids.len());
    if ids.len() == 1 {
        assert(strs(ids)[0] == ids[0]@);
    }
}

/// The machine of a job is its only instance; one that could not be started uses
/// up a restart unless trying again cannot help, and fails the job where the
/// budget is spent.
pub proof fn law_job_start_is_recorded(
    started: &mut Deployment,
    instance_id: String,
    failed: &mut Deployment,
    e: &RuntimeError,
)
    requires
        call_ensures(job_started, (started, instance_id), ()),
        call_ensures(job_start_failed, (failed, e), ()),
    ensures
        final(started).status == DeploymentStatus::Running,
        final(started).instances@.len() == 1,
        final(started).instances@[0]@ == instance_id@,
        ({
            let permanent = *e is FirmwareNotFound || *e is ImageNotFound
                || *e is InsufficientResources;
            &&& permanent ==> final(failed).restart_count == old(failed).restart_count
            &&& !permanent ==> final(failed).restart_count == old(failed).restart_count + 1
            &&& !permanent && final(failed).restart_count >= 5 ==> final(failed).status
                == DeploymentStatus::Failed
            &&& !permanent && final(failed).restart_count < 5 ==> final(failed).status == old(
                failed,
            ).status
        }),
{
    let ids = final(started).instances@;
    assert(strs(ids).len() == ids.len());
    assert(strs(ids)[0] == ids[0]@);
}

/// A process that was asked to end is looked at until it is gone, twenty-one
/// times at most, and is killed once on the way, where it is still there at the
/// sixth look. Backups of a console log are removed one by one until the first
/// that is missing.
pub proof fn law_stopping_is_bounded(
    i: u32,
    alive: bool,
    r: KillAction,
    tried: u32,
    there: bool,
    next: Option<u32>,
)
    requires
        call_ensures(after_look, (i, alive), r),
        call_ensures(next_stale_backup, (tried, there), next),
    ensures
        !alive ==> r == KillAction::Stop,
        i >= 20 ==> r == KillAction::Stop,
        r == KillAction::KillAndWait <==> alive && i == 5,
        alive && i < 20 ==> r != KillAction::Stop,
        next is Some <==> there && tried < 1000,
        next matches Some(n) ==> n == tried + 1,
{
}

/// The files that go with a machine are its control socket, first, its disk, the
/// image for its first boot, its console log and its socket device, with the socket
/// that the device has for the agent's port.
pub proof fn law_files_go_with_their_machine(
    l: &FirecrackerLifecycle,
    id: &str,
    socket: String,
    disk: String,
    iso: String,
    console: String,
    vsock: String,
    r: Vec<String>,
)
    requires
        call_ensures(FirecrackerLifecycle::socket_path, (l, id), socket),
        call_ensures(FirecrackerLifecycle::rootfs_path, (l, id), disk),
        call_ensures(FirecrackerLifecycle::cidata_path, (l, id), iso),
        call_ensures(FirecrackerLifecycle::console_log_path, (l, id), console),
        call_ensures(FirecrackerLifecycle::vsock_path, (l, id), vsock),
        call_ensures(instance_files, (l, id), r),
    ensures
        r@.len() == 6 && r@[0]@ == socket@,
        strs(r@).contains(disk@),
        strs(r@).contains(iso@),
        strs(r@).contains(console@),
        strs(r@).contains(vsock@),
        strs(r@).contains(vsock@ + "_"@ + decimal(2375)),
{
    let a = strs(r@);
    assert(a.len() == r@.len());
    assert(a[0] == r@[0]@);
    assert(a[1] == disk@ && a[2] == iso@ && a[3] == console@ && a[4] == vsock@);
    assert(a[5] == vsock@ + "_"@ + decimal(2375));
}

} // verus!
