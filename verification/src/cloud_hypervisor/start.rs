//! Starting a virtual machine: what it is created with, and the steps from a
//! look at the firmware to a machine whose ports are forwarded.
use vstd::prelude::*;
use vstd::utf8::encode_utf8;
use crate::cloud_hypervisor::client::{ConsoleConfig, CpuConfig, DiskConfig, FsConfig, MemoryConfig, NetConfig, PayloadConfig, VmConfig, VsockConfig};
use crate::cloud_hypervisor::lifecycle::CloudHypervisorLifecycle;
use crate::cloud_hypervisor::network::{default_net, unconfigured};
use crate::docker::container::limits_of;
use crate::error::{RuntimeError, RuntimeErrorView};
use crate::host_net::{InstanceNet, cid_for_instance, fnv, guest_cid, hash_mac, slot_ip, slot_tap, subnet_slot};
use crate::models::{Deployment, HealthCheck, Port, Resource};
use crate::paths::instance_file;
use crate::port_forwarder::{bind_ip, listen_ip};
use crate::resources::{declared_cpu, declared_memory, spec_cpu, spec_memory};
use crate::steps::{Run, advanced, fresh, lemma_run_ends, lemma_run_keeps, run_on};
use crate::text::{cat2, opt_str, strs};

verus! {

// ---------------------------------------------------------------------------
// What a VM is created with
// ---------------------------------------------------------------------------

/// The number of CPUs for a share in billionths of a core: whole cores, at
/// least one.
pub open spec fn vcpus_for(nano: int) -> int {
    let whole = (nano / 1_000_000_000) % 0x1_0000_0000;
    if whole < 1 {
        1
    } else {
        whole
    }
}

/// The memory in mebibytes for a number of bytes: whole ones, at least 128.
pub open spec fn memory_mib_for(bytes: int) -> int {
    let whole = (bytes / 1_048_576) % 0x1_0000_0000;
    if whole < 128 {
        128
    } else {
        whole
    }
}

/// The CPUs of a deployment's VMs: what its limits say, or one.
pub open spec fn vm_vcpus(d: &Deployment) -> int {
    match spec_cpu(limits_of(d)) {
        Some(nano) => vcpus_for(nano),
        None => 1,
    }
}

/// The memory of a deployment's VMs in mebibytes: what its limits say, or 256.
pub open spec fn vm_memory_mib(d: &Deployment) -> int {
    match spec_memory(limits_of(d)) {
        Some(bytes) => memory_mib_for(bytes),
        None => 256,
    }
}

/// The CPUs and the memory in mebibytes of a deployment's VMs.
pub fn parse_resources(deployment: &Deployment) -> (r: (u32, u32))
    ensures
        r.0 == vm_vcpus(deployment),
        r.1 == vm_memory_mib(deployment),
        r.0 >= 1,
        r.1 >= 128,
{
    let mut vcpus: u32 = 1;
    let mut memory: u32 = 256;
    if let Some(resources) = &deployment.resources {
        if let Some(nano) = declared_cpu(&resources.limits) {
            let whole: u32 = ((nano as u64 / 1_000_000_000) % 0x1_0000_0000) as u32;
            vcpus = if whole < 1 {
                1
            } else {
                whole
            };
        }
        if let Some(bytes) = declared_memory(&resources.limits) {
            let whole: u32 = ((bytes as u64 / 1_048_576) % 0x1_0000_0000) as u32;
            memory = if whole < 128 {
                128
            } else {
                whole
            };
        }
    }
    (vcpus, memory)
}

/// Mebibytes in bytes.
pub fn mib_to_bytes(mib: u32) -> (r: u64)
    ensures
        r == mib * 1_048_576,
{
    mib as u64 * 1_048_576
}

/// Whether some health check of a deployment runs a command.
pub open spec fn has_command_check(checks: Seq<HealthCheck>) -> bool {
    exists|i: int| 0 <= i < checks.len() && #[trigger] checks[i] is Command
}

/// Whether a deployment needs a socket device: only command checks use one.
pub fn needs_vsock(deployment: &Deployment) -> (r: bool)
    ensures
        r == has_command_check(deployment.health_checks@),
{
    let mut i: usize = 0;
    while i < deployment.health_checks.len()
        invariant
            i <= deployment.health_checks.len(),
            forall|j: int| 0 <= j < i ==> !(#[trigger] deployment.health_checks@[j] is Command),
        decreases deployment.health_checks.len() - i,
    {
        if let HealthCheck::Command { .. } = &deployment.health_checks[i] {
            assert(deployment.health_checks@[i as int] is Command);
            return true;
        }
        i += 1;
    }
    false
}

/// Whether a VM is given the image that tells the guest about its environment,
/// its volumes and its network: only where there is something to tell.
pub open spec fn wants_cidata(d: &Deployment, shares: nat) -> bool {
    d.environment.len() > 0 || shares > 0 || d.ports.len() > 0
}

/// Whether a VM is given the image for its first boot.
pub fn needs_cidata(deployment: &Deployment, shares: usize) -> (r: bool)
    ensures
        r == wants_cidata(deployment, shares as nat),
{
    deployment.environment.len() > 0 || shares > 0 || deployment.ports.len() > 0
}

/// The disks of a VM: its own, and the image for its first boot where there is
/// one.
pub open spec fn disks_of(
    dir: Seq<char>,
    instance_id: Seq<char>,
    cidata: bool,
    disks: Seq<DiskConfig>,
) -> bool {
    &&& disks.len() == if cidata {
        2int
    } else {
        1int
    }
    &&& disks[0].path@ == instance_file(dir, instance_id, ".raw"@)
    &&& disks[0].readonly == Some(false)
    &&& cidata ==> disks[1].path@ == instance_file(dir, instance_id, ".cidata.iso"@)
        && disks[1].readonly == Some(true)
}

/// The network device of a VM: that of the instance where ports are published,
/// else one that is left to the VMM.
pub open spec fn net_of(instance_id: Seq<char>, published: bool, n: NetConfig) -> bool {
    if published {
        let slot = subnet_slot(instance_id);
        &&& opt_str(n.tap) == Some(slot_tap(slot))
        &&& opt_str(n.ip) == Some(slot_ip(slot, 1))
        &&& opt_str(n.mask) == Some("255.255.255.252"@)
        &&& opt_str(n.mac) == Some(hash_mac(fnv(encode_utf8(instance_id))))
    } else {
        unconfigured(n)
    }
}

/// The network device of a VM.
fn net_config(instance_id: &str, published: bool) -> (r: NetConfig)
    ensures
        net_of(instance_id@, published, r),
{
    if published {
        let net = InstanceNet::for_instance(instance_id);
        NetConfig {
            tap: Some(net.tap_name),
            ip: Some(net.host_ip),
            mask: Some(net.netmask),
            mac: Some(net.mac),
        }
    } else {
        default_net()
    }
}

/// Build what the VM of an instance is created with. `cidata` says whether the
/// image for the first boot was built.
pub fn vm_config(
    lifecycle: &CloudHypervisorLifecycle,
    instance_id: &str,
    deployment: &Deployment,
    fs: Vec<FsConfig>,
    cidata: bool,
) -> (r: VmConfig)
    ensures
        ({
            let dir = lifecycle.config.socket_dir@;
            &&& r.payload.kernel is None && r.payload.cmdline is None && r.payload.initramfs is None
            &&& opt_str(r.payload.firmware) == Some(lifecycle.config.firmware_path@)
            &&& r.cpus == Some(
                CpuConfig {
                    boot_vcpus: vm_vcpus(deployment) as u32,
                    max_vcpus: vm_vcpus(deployment) as u32,
                },
            )
            &&& r.memory == Some(
                MemoryConfig {
                    size: (vm_memory_mib(deployment) * 1_048_576) as u64,
                    shared: fs.len() > 0,
                },
            )
            &&& r.disks matches Some(disks) && disks_of(dir, instance_id@, cidata, disks@)
            &&& r.fs == if fs.len() > 0 {
                Some(fs)
            } else {
                None
            }
            &&& r.net matches Some(net) && net.len() == 1 && net_of(
                instance_id@,
                deployment.ports.len() > 0,
                net@[0],
            )
            &&& r.serial matches Some(serial) && serial.mode@ == "File"@ && opt_str(serial.file)
                == Some(instance_file(dir, instance_id@, ".console.log"@))
            &&& r.console matches Some(console) && console.mode@ == "Off"@ && console.file is None
            &&& if has_command_check(deployment.health_checks@) {
                r.vsock matches Some(v) && v.cid == guest_cid(instance_id@) && v.socket@
                    == instance_file(dir, instance_id@, ".vsock"@)
            } else {
                r.vsock is None
            }
        }),
{
    let (vcpus, memory_mib) = parse_resources(deployment);
    let shared = fs.len() > 0;
    let mut disks: Vec<DiskConfig> = Vec::new();
    disks.push(
        DiskConfig { path: lifecycle.instance_image_path(instance_id), readonly: Some(false) },
    );
    if cidata {
        disks.push(
            DiskConfig { path: lifecycle.cidata_iso_path(instance_id), readonly: Some(true) },
        );
    }
    let mut net: Vec<NetConfig> = Vec::new();
    net.push(net_config(instance_id, deployment.ports.len() > 0));
    let vsock = if needs_vsock(deployment) {
        Some(
            VsockConfig {
                cid: cid_for_instance(instance_id),
                socket: lifecycle.vsock_path(instance_id),
            },
        )
    } else {
        None
    };
    VmConfig {
        payload: PayloadConfig {
            kernel: None,
            cmdline: None,
            firmware: Some(lifecycle.config.firmware_path.clone()),
            initramfs: None,
        },
        cpus: Some(CpuConfig { boot_vcpus: vcpus, max_vcpus: vcpus }),
        memory: Some(MemoryConfig { size: mib_to_bytes(memory_mib), shared }),
        disks: Some(disks),
        fs: if shared {
            Some(fs)
        } else {
            None
        },
        net: Some(net),
        serial: Some(
            ConsoleConfig {
                mode: "File".to_owned(),
                file: Some(lifecycle.console_log_path(instance_id)),
            },
        ),
        console: Some(ConsoleConfig { mode: "Off".to_owned(), file: None }),
        vsock,
    }
}

/// The arguments of the VMM's program.
pub fn vmm_arguments(lifecycle: &CloudHypervisorLifecycle, instance_id: &str) -> (r: Vec<String>)
    ensures
        strs(r@) == match lifecycle.config.seccomp {
            Some(mode) => seq![
                "--api-socket"@,
                instance_file(lifecycle.config.socket_dir@, instance_id@, ".sock"@),
                "--seccomp"@,
                mode@,
            ],
            None => seq![
                "--api-socket"@,
                instance_file(lifecycle.config.socket_dir@, instance_id@, ".sock"@),
            ],
        },
{
    let mut out: Vec<String> = Vec::new();
    out.push("--api-socket".to_owned());
    out.push(lifecycle.socket_path(instance_id));
    let ghost socket = instance_file(lifecycle.config.socket_dir@, instance_id@, ".sock"@);
    match &lifecycle.config.seccomp {
        Some(mode) => {
            out.push("--seccomp".to_owned());
            out.push(mode.clone());
            assert(strs(out@) =~= seq!["--api-socket"@, socket, "--seccomp"@, mode@]);
        },
        None => {
            assert(strs(out@) =~= seq!["--api-socket"@, socket]);
        },
    }
    out
}

/// The arguments of the program that copies a disk without filling its holes.
pub fn copy_arguments(from: &str, to: &str) -> (r: Vec<String>)
    ensures
        strs(r@) == seq!["--sparse=always"@, from@, to@],
{
    let mut out: Vec<String> = Vec::new();
    out.push("--sparse=always".to_owned());
    out.push(from.to_owned());
    out.push(to.to_owned());
    assert(strs(out@) =~= seq!["--sparse=always"@, from@, to@]);
    out
}

// ---------------------------------------------------------------------------
// The steps of a start
// ---------------------------------------------------------------------------

/// What the steps of a start depend on.
#[derive(Clone, Copy, Debug, PartialEq, Eq, Structural)]
pub struct StartPlan {
    /// How many ports are published.
    pub ports: usize,
    /// Whether the image for the first boot is built.
    pub cidata: bool,
}

/// A step of a start.
#[derive(Clone, Copy, Debug, PartialEq, Eq, Structural)]
pub enum StartStep {
    /// See whether the firmware is there.
    CheckFirmware,
    /// Create the socket directory.
    MakeSocketDir,
    /// See whether the image is there.
    CheckImage,
    /// See whether published port `i` is free on the host.
    CheckPort(usize),
    /// Compare the memory that is needed with what the host has.
    CheckMemory,
    /// Copy the image, unless the instance has its copy.
    CopyImage,
    /// Start the VMM's process.
    Spawn,
    /// Wait for the control socket.
    AwaitSocket,
    /// Share the volumes' directories.
    ShareVolumes,
    /// Build the image for the first boot.
    BuildCidata,
    /// Create the VM.
    CreateVm,
    /// Boot the VM.
    BootVm,
    /// Forward published port `i` to the guest.
    Forward(usize),
    /// Stop the VM again and remove its files.
    Undo,
    /// The VM is up.
    Started,
    /// The start failed.
    Failed,
}

/// The step that looks at port `i`, or at the memory where there is no such
/// port.
pub open spec fn check_port_or_memory(plan: StartPlan, i: int) -> StartStep {
    if i < plan.ports {
        StartStep::CheckPort(i as usize)
    } else {
        StartStep::CheckMemory
    }
}

/// The step that forwards port `i`, or the end where there is no such port.
pub open spec fn forward_or_end(plan: StartPlan, i: int) -> StartStep {
    if i < plan.ports {
        StartStep::Forward(i as usize)
    } else {
        StartStep::Started
    }
}

/// The step that follows one that succeeded.
pub open spec fn start_next_ok(plan: StartPlan, step: StartStep) -> StartStep {
    match step {
        StartStep::CheckFirmware => StartStep::MakeSocketDir,
        StartStep::MakeSocketDir => StartStep::CheckImage,
        StartStep::CheckImage => check_port_or_memory(plan, 0),
        StartStep::CheckPort(i) => check_port_or_memory(plan, i + 1),
        StartStep::CheckMemory => StartStep::CopyImage,
        StartStep::CopyImage => StartStep::Spawn,
        StartStep::Spawn => StartStep::AwaitSocket,
        StartStep::AwaitSocket => StartStep::ShareVolumes,
        StartStep::ShareVolumes => if plan.cidata {
            StartStep::BuildCidata
        } else {
            StartStep::CreateVm
        },
        StartStep::BuildCidata => StartStep::CreateVm,
        StartStep::CreateVm => StartStep::BootVm,
        StartStep::BootVm => forward_or_end(plan, 0),
        StartStep::Forward(i) => forward_or_end(plan, i + 1),
        StartStep::Undo => StartStep::Failed,
        StartStep::Started => StartStep::Started,
        StartStep::Failed => StartStep::Failed,
    }
}

/// Whether a step that fails leaves a VM that has to be stopped again.
pub open spec fn must_undo(step: StartStep) -> bool {
    step is CreateVm || step is BootVm || step is Forward
}

/// The step that follows, given whether the last one succeeded.
pub open spec fn start_next(plan: StartPlan, step: StartStep, ok: bool) -> StartStep {
    if ok || step is Undo || step is Started || step is Failed {
        start_next_ok(plan, step)
    } else if must_undo(step) {
        StartStep::Undo
    } else {
        StartStep::Failed
    }
}

/// The step that follows, given whether the last one succeeded.
pub fn next_start_step(plan: StartPlan, step: StartStep, ok: bool) -> (r: StartStep)
    ensures
        r == start_next(plan, step, ok),
{
    if !ok {
        return match step {
            StartStep::CreateVm => StartStep::Undo,
            StartStep::BootVm => StartStep::Undo,
            StartStep::Forward(_) => StartStep::Undo,
            StartStep::Started => StartStep::Started,
            _ => StartStep::Failed,
        };
    }
    match step {
        StartStep::CheckFirmware => StartStep::MakeSocketDir,
        StartStep::MakeSocketDir => StartStep::CheckImage,
        StartStep::CheckImage => {
            if plan.ports > 0 {
                StartStep::CheckPort(0)
            } else {
                StartStep::CheckMemory
            }
        },
        StartStep::CheckPort(i) => {
            if i < plan.ports && i + 1 < plan.ports {
                StartStep::CheckPort(i + 1)
            } else {
                StartStep::CheckMemory
            }
        },
        StartStep::CheckMemory => StartStep::CopyImage,
        StartStep::CopyImage => StartStep::Spawn,
        StartStep::Spawn => StartStep::AwaitSocket,
        StartStep::AwaitSocket => StartStep::ShareVolumes,
        StartStep::ShareVolumes => {
            if plan.cidata {
                StartStep::BuildCidata
            } else {
                StartStep::CreateVm
            }
        },
        StartStep::BuildCidata => StartStep::CreateVm,
        StartStep::CreateVm => StartStep::BootVm,
        StartStep::BootVm => {
            if plan.ports > 0 {
                StartStep::Forward(0)
            } else {
                StartStep::Started
            }
        },
        StartStep::Forward(i) => {
            if i < plan.ports && i + 1 < plan.ports {
                StartStep::Forward(i + 1)
            } else {
                StartStep::Started
            }
        },
        StartStep::Undo => StartStep::Failed,
        StartStep::Started => StartStep::Started,
        StartStep::Failed => StartStep::Failed,
    }
}

/// Make the plan of a start.
pub fn plan_start(deployment: &Deployment, mounts: usize) -> (r: StartPlan)
    ensures
        r == (StartPlan {
            ports: deployment.ports.len(),
            cidata: wants_cidata(deployment, mounts as nat),
        }),
{
    StartPlan { ports: deployment.ports.len(), cidata: needs_cidata(deployment, mounts) }
}

/// The interface that a published port is bound to.
pub fn port_host_ip(port: &Port) -> (r: String)
    ensures
        r@ == bind_ip(opt_str(port.host_ip)),
{
    listen_ip(&port.host_ip)
}

/// What a failed step is reported as, where the step itself says it. `detail`
/// is the text of the error behind it. Steps whose own error is handed on are
/// left to the caller.
pub open spec fn start_failure(
    lifecycle: CloudHypervisorLifecycle,
    deployment: Deployment,
    step: StartStep,
    detail: Seq<char>,
) -> RuntimeErrorView {
    match step {
        StartStep::CheckFirmware => RuntimeErrorView::FirmwareNotFound(
            lifecycle.config.firmware_path@,
        ),
        StartStep::MakeSocketDir => RuntimeErrorView::Io(detail),
        StartStep::CheckImage => RuntimeErrorView::ImageNotFound(deployment.image@),
        StartStep::CopyImage => RuntimeErrorView::VmStartFailed(
            "Failed to copy VM image: "@ + detail,
        ),
        StartStep::Spawn => RuntimeErrorView::VmStartFailed(
            "Failed to start cloud-hypervisor: "@ + detail,
        ),
        StartStep::AwaitSocket => RuntimeErrorView::VmStartFailed(
            "cloud-hypervisor socket not available after 5s"@,
        ),
        StartStep::ShareVolumes => RuntimeErrorView::VmStartFailed(
            "Failed to set up virtio-fs: "@ + detail,
        ),
        StartStep::CreateVm => RuntimeErrorView::VmStartFailed("Failed to create VM: "@ + detail),
        StartStep::BootVm => RuntimeErrorView::VmStartFailed("Failed to boot VM: "@ + detail),
        StartStep::CheckPort(i) => if i < deployment.ports.len() {
            RuntimeErrorView::PortAlreadyInUse(deployment.ports@[i as int].published)
        } else {
            RuntimeErrorView::Other(detail)
        },
        _ => RuntimeErrorView::Other(detail),
    }
}

/// What a failed step is reported as.
pub fn start_error_for(
    lifecycle: &CloudHypervisorLifecycle,
    deployment: &Deployment,
    step: StartStep,
    detail: &str,
) -> (r: RuntimeError)
    ensures
        r@ == start_failure(*lifecycle, *deployment, step, detail@),
{
    match step {
        StartStep::CheckFirmware => RuntimeError::FirmwareNotFound(
            lifecycle.config.firmware_path.clone(),
        ),
        StartStep::MakeSocketDir => RuntimeError::Io(detail.to_owned()),
        StartStep::CheckImage => RuntimeError::ImageNotFound(deployment.image.clone()),
        StartStep::CopyImage => RuntimeError::VmStartFailed(
            cat2("Failed to copy VM image: ", detail),
        ),
        StartStep::Spawn => RuntimeError::VmStartFailed(
            cat2("Failed to start cloud-hypervisor: ", detail),
        ),
        StartStep::AwaitSocket => RuntimeError::VmStartFailed(
            "cloud-hypervisor socket not available after 5s".to_owned(),
        ),
        StartStep::ShareVolumes => RuntimeError::VmStartFailed(
            cat2("Failed to set up virtio-fs: ", detail),
        ),
        StartStep::CreateVm => RuntimeError::VmStartFailed(cat2("Failed to create VM: ", detail)),
        StartStep::BootVm => RuntimeError::VmStartFailed(cat2("Failed to boot VM: ", detail)),
        StartStep::CheckPort(i) => if i < deployment.ports.len() {
            RuntimeError::PortAlreadyInUse(deployment.ports[i].published)
        } else {
            RuntimeError::Other(detail.to_owned())
        },
        _ => RuntimeError::Other(detail.to_owned()),
    }
}

// ---------------------------------------------------------------------------
// Laws
// ---------------------------------------------------------------------------

/// Once the VM exists in the VMM, a step that fails leads to its removal, and
/// only from there to failure.
pub proof fn law_half_started_vm_is_undone(plan: StartPlan, step: StartStep, ok: bool)
    ensures
        must_undo(step) && !ok ==> start_next(plan, step, ok) is Undo,
        must_undo(step) && ok ==> must_undo(start_next(plan, step, ok)) || start_next(
            plan,
            step,
            ok,
        ) is Started,
        step is Undo ==> start_next(plan, step, ok) is Failed,
{
}

/// Nothing is copied, started or created before the firmware, the image, the
/// ports and the memory were found in order: from each of those checks a
/// failure leads straight to the end.
pub proof fn law_checks_come_first(plan: StartPlan, step: StartStep)
    requires
        step is CheckFirmware || step is CheckImage || step is CheckPort || step is CheckMemory,
    ensures
        start_next(plan, step, false) is Failed,
        step is CheckMemory <==> start_next(plan, step, true) is CopyImage,
{
}

/// Every published port is looked at before the start and forwarded after it,
/// one after the other.
pub proof fn law_every_port_is_served(plan: StartPlan, i: nat)
    requires
        i < plan.ports,
    ensures
        start_next(plan, StartStep::CheckPort(i as usize), true) == if i + 1 < plan.ports {
            StartStep::CheckPort((i + 1) as usize)
        } else {
            StartStep::CheckMemory
        },
        start_next(plan, StartStep::Forward(i as usize), true) == if i + 1 < plan.ports {
            StartStep::Forward((i + 1) as usize)
        } else {
            StartStep::Started
        },
{
}

/// How many steps a start can still take.
pub open spec fn start_rank(plan: StartPlan, step: StartStep) -> int {
    let n = plan.ports as int;
    match step {
        StartStep::CheckFirmware => 2 * n + 16,
        StartStep::MakeSocketDir => 2 * n + 15,
        StartStep::CheckImage => 2 * n + 14,
        StartStep::CheckPort(i) => if i < n {
            2 * n - i + 13
        } else {
            n + 13
        },
        StartStep::CheckMemory => n + 12,
        StartStep::CopyImage => n + 11,
        StartStep::Spawn => n + 10,
        StartStep::AwaitSocket => n + 9,
        StartStep::ShareVolumes => n + 8,
        StartStep::BuildCidata => n + 7,
        StartStep::CreateVm => n + 6,
        StartStep::BootVm => n + 5,
        StartStep::Forward(i) => if i < n {
            n - i + 2
        } else {
            2
        },
        StartStep::Undo => 1,
        StartStep::Started => 0,
        StartStep::Failed => 0,
    }
}

/// A start comes to an end: every step leaves fewer to take.
pub proof fn law_start_ends(plan: StartPlan, step: StartStep, ok: bool)
    ensures
        !(step is Started) && !(step is Failed) ==> 0 <= start_rank(
            plan,
            start_next(plan, step, ok),
        ) < start_rank(plan, step),
{
}

/// Whether the VMM may know of a VM while this step is taken.
pub open spec fn vm_may_exist(step: StartStep) -> bool {
    step is BootVm || step is Forward || step is Undo || step is Started
}

/// Where a start stands after some outcomes, and whether the VMM may know of a
/// VM: from the request that creates it on, until it is stopped again.
pub open spec fn start_after(
    plan: StartPlan,
    step: StartStep,
    vm: bool,
    outcomes: Seq<bool>,
) -> (StartStep, bool)
    decreases outcomes.len(),
{
    if outcomes.len() == 0 {
        (step, vm)
    } else {
        let vm_next = match step {
            StartStep::CreateVm => true,
            StartStep::Undo => false,
            _ => vm,
        };
        start_after(plan, start_next(plan, step, outcomes[0]), vm_next, outcomes.skip(1))
    }
}

/// However its steps turn out, a start from its beginning leaves a VM behind
/// exactly where it succeeds, and it comes to an end.
pub proof fn law_whole_start(plan: StartPlan, outcomes: Seq<bool>)
    ensures
        ({
            let (step, vm) = start_after(plan, StartStep::CheckFirmware, false, outcomes);
            &&& step is Failed ==> !vm
            &&& step is Started ==> vm
        }),
        outcomes.len() >= 2 * plan.ports + 16 ==> {
            let step = start_after(plan, StartStep::CheckFirmware, false, outcomes).0;
            step is Failed || step is Started
        },
{
    lemma_start_run(plan, StartStep::CheckFirmware, outcomes);
}

/// A run from any step keeps track of the VM, and ends.
proof fn lemma_start_run(plan: StartPlan, step: StartStep, outcomes: Seq<bool>)
    ensures
        ({
            let (end, vm) = start_after(plan, step, vm_may_exist(step), outcomes);
            &&& vm == vm_may_exist(end)
            &&& outcomes.len() >= start_rank(plan, step) ==> end is Failed || end is Started
        }),
    decreases outcomes.len(),
{
    if outcomes.len() > 0 {
        law_start_ends(plan, step, outcomes[0]);
        lemma_start_run(plan, start_next(plan, step, outcomes[0]), outcomes.skip(1));
    }
}

/// Whether a start is over.
pub open spec fn start_is_over(step: StartStep) -> bool {
    step is Started || step is Failed
}

/// A start from its beginning, after steps with these outcomes.
pub open spec fn start_run(plan: StartPlan, outcomes: Seq<bool>) -> Run<StartStep, bool> {
    run_on(
        |step: StartStep, ok: bool| start_next(plan, step, ok),
        |step: StartStep| start_is_over(step),
        fresh(StartStep::CheckFirmware),
        outcomes,
    )
}

/// The place of a step in the order of a start that goes well; none for the
/// steps of one that does not.
pub open spec fn start_place(step: StartStep) -> int {
    match step {
        StartStep::CheckFirmware => 0,
        StartStep::MakeSocketDir => 1,
        StartStep::CheckImage => 2,
        StartStep::CheckPort(_) => 3,
        StartStep::CheckMemory => 4,
        StartStep::CopyImage => 5,
        StartStep::Spawn => 6,
        StartStep::AwaitSocket => 7,
        StartStep::ShareVolumes => 8,
        StartStep::BuildCidata => 9,
        StartStep::CreateVm => 10,
        StartStep::BootVm => 11,
        StartStep::Forward(_) => 12,
        StartStep::Started => 13,
        _ => -1,
    }
}

/// What was done where a start stands.
spec fn start_history(plan: StartPlan, run: Run<StartStep, bool>) -> bool {
    let at = start_place(run.step);
    &&& at > 0 ==> run.done(StartStep::CheckFirmware)
    &&& at > 1 ==> run.done(StartStep::MakeSocketDir)
    &&& at > 2 ==> run.done(StartStep::CheckImage)
    &&& run.step matches StartStep::CheckPort(i) ==> i < plan.ports && forall|j: usize|
        j < i ==> #[trigger] run.done(StartStep::CheckPort(j))
    &&& at > 3 ==> forall|j: usize| j < plan.ports ==> #[trigger] run.done(StartStep::CheckPort(j))
    &&& at > 4 ==> run.done(StartStep::CheckMemory)
    &&& at > 5 ==> run.done(StartStep::CopyImage)
    &&& at > 6 ==> run.done(StartStep::Spawn)
    &&& at > 7 ==> run.done(StartStep::AwaitSocket)
    &&& at > 8 ==> run.done(StartStep::ShareVolumes)
    &&& at == 9 ==> plan.cidata
    &&& at > 9 ==> (plan.cidata <==> run.done(StartStep::BuildCidata))
    &&& run.tried(StartStep::BuildCidata) ==> plan.cidata
    &&& at <= 9 && at >= 0 ==> !run.tried(StartStep::BuildCidata)
    &&& at > 10 ==> run.done(StartStep::CreateVm)
    &&& at > 11 ==> run.done(StartStep::BootVm)
    &&& run.step matches StartStep::Forward(i) ==> i < plan.ports && forall|j: usize|
        j < i ==> #[trigger] run.done(StartStep::Forward(j))
    &&& at > 12 ==> forall|j: usize| j < plan.ports ==> #[trigger] run.done(StartStep::Forward(j))
    &&& forall|j: usize| #[trigger] run.tried(StartStep::CheckPort(j)) ==> j < plan.ports
    &&& forall|j: usize| #[trigger] run.tried(StartStep::Forward(j)) ==> j < plan.ports
    &&& at >= 0 ==> forall|s: StartStep| !#[trigger] run.failed(s)
    &&& run.step is Undo || run.step is Failed ==> exists|s: StartStep| #[trigger]
        run.failed(s) && !(s is Undo)
    &&& run.step is Undo ==> run.done(StartStep::ShareVolumes)
    &&& at >= 0 ==> !run.tried(StartStep::Undo)
    &&& run.step is Undo ==> !run.tried(StartStep::Undo)
    &&& run.step is Failed && run.tried(StartStep::CreateVm) ==> run.tried(StartStep::Undo)
    &&& run.tried(StartStep::Undo) ==> run.tried(StartStep::CreateVm)
    &&& run.step is Undo ==> run.tried(StartStep::CreateVm)
    &&& 0 <= at <= 10 ==> !run.tried(StartStep::CreateVm)
    &&& run.tried(StartStep::CreateVm) ==> run.done(StartStep::ShareVolumes)
}

/// A step keeps the history.
proof fn lemma_start_history(
    plan: StartPlan,
    r: Run<StartStep, bool>,
    ok: bool,
    after: Run<StartStep, bool>,
)
    requires
        start_history(plan, r),
        !start_is_over(r.step),
        after.step == start_next(plan, r.step, ok),
        after.seen == r.seen.insert((r.step, ok)),
    ensures
        start_history(plan, after),
{
    assert(forall|s: StartStep| #[trigger] after.done(s) <==> r.done(s) || (s == r.step && ok));
    assert(forall|s: StartStep| #[trigger]
        after.failed(s) <==> r.failed(s) || (s == r.step && !ok));
    assert(forall|s: StartStep| #[trigger] after.tried(s) <==> r.tried(s) || s == r.step);
    if r.step is Undo {
        let s = choose|s: StartStep| #[trigger] r.failed(s) && !(s is Undo);
        assert(after.failed(s));
    } else {
        assert(!ok ==> after.failed(r.step));
    }
}

/// However its steps turn out, a start that is reported as started has found
/// everything in order, every published port among it, has made and booted the
/// VM, has forwarded every published port after that, and not one of its steps
/// has failed. Nothing is copied or started before all checks succeeded. A step
/// that fails is the only reason for a failure; where the VMM was asked for a VM
/// by then, the VM is undone. A start whose steps all succeed is started.
pub proof fn law_started_means_served(plan: StartPlan, outcomes: Seq<bool>)
    ensures
        ({
            let run = start_run(plan, outcomes);
            let at = start_place(run.step);
            &&& at >= 5 ==> {
                &&& run.done(StartStep::CheckFirmware)
                &&& run.done(StartStep::MakeSocketDir)
                &&& run.done(StartStep::CheckImage)
                &&& run.done(StartStep::CheckMemory)
                &&& forall|i: usize|
                    i < plan.ports ==> #[trigger] run.done(StartStep::CheckPort(i))
            }
            &&& at > 5 ==> run.done(StartStep::CopyImage)
            &&& at > 6 ==> run.done(StartStep::Spawn)
            &&& at > 7 ==> run.done(StartStep::AwaitSocket)
            &&& at > 8 ==> run.done(StartStep::ShareVolumes)
            &&& at > 9 ==> (run.done(StartStep::BuildCidata) <==> plan.cidata)
            &&& at > 10 ==> run.done(StartStep::CreateVm)
            &&& at > 11 ==> run.done(StartStep::BootVm)
            &&& run.step is Started ==> forall|i: usize|
                i < plan.ports ==> #[trigger] run.done(StartStep::Forward(i))
            &&& forall|i: usize| #[trigger] run.tried(StartStep::CheckPort(i)) ==> i < plan.ports
            &&& forall|i: usize| #[trigger] run.tried(StartStep::Forward(i)) ==> i < plan.ports
            &&& run.tried(StartStep::BuildCidata) ==> plan.cidata
            &&& run.step is Started ==> forall|s: StartStep| !#[trigger] run.failed(s)
            &&& run.step is Failed ==> exists|s: StartStep| #[trigger]
                run.failed(s) && !(s is Undo)
            &&& run.step is Failed ==> (run.tried(StartStep::Undo) <==> run.tried(
                StartStep::CreateVm,
            ))
            &&& outcomes.len() >= 2 * plan.ports + 16 && (forall|s: StartStep|
                !#[trigger] run.failed(s)) ==> run.step is Started
        }),
{
    let next = |step: StartStep, ok: bool| start_next(plan, step, ok);
    let over = |step: StartStep| start_is_over(step);
    let inv = |run: Run<StartStep, bool>| start_history(plan, run);
    let first = fresh::<StartStep, bool>(StartStep::CheckFirmware);
    assert forall|r: Run<StartStep, bool>, ok: bool| inv(r) && !over(r.step) implies inv(
        #[trigger] advanced(next, r, ok),
    ) by {
        lemma_start_history(plan, r, ok, advanced(next, r, ok));
    }
    lemma_run_keeps(next, over, inv, first, outcomes);
    if outcomes.len() >= 2 * plan.ports + 16 {
        let rank = |step: StartStep| start_rank(plan, step);
        assert forall|s: StartStep, o: bool| !over(s) implies 0 <= rank(#[trigger] next(s, o))
            < rank(s) by {
            law_start_ends(plan, s, o);
        }
        lemma_run_ends(next, over, rank, first, outcomes);
    }
}

/// A VM is given the memory of its deployment's limits in whole mebibytes, and
/// never more than that, from 128 on; less gives 128, and nothing that can be
/// read gives 256. The requests do not count.
pub proof fn law_vm_gets_the_declared_memory(
    deployment: &Deployment,
    resources: Resource,
    declared: Option<i64>,
    r: (u32, u32),
)
    requires
        deployment.resources == Some(resources),
        call_ensures(declared_memory, (&resources.limits,), declared),
        call_ensures(parse_resources, (deployment,), r),
    ensures
        declared matches Some(b) ==> 128 * 1_048_576 <= b < 0x1_0000_0000 * 1_048_576 ==> r.1
            * 1_048_576 <= b < (r.1 + 1) * 1_048_576,
        declared matches Some(b) ==> b < 128 * 1_048_576 ==> r.1 == 128,
        declared is None ==> r.1 == 256,
{
}

/// A VM is given the whole cores of its deployment's limits, and never more
/// than that; less than one core, and nothing that can be read, give one.
pub proof fn law_vm_gets_the_declared_cpus(
    deployment: &Deployment,
    resources: Resource,
    declared: Option<i64>,
    r: (u32, u32),
)
    requires
        deployment.resources == Some(resources),
        call_ensures(declared_cpu, (&resources.limits,), declared),
        call_ensures(parse_resources, (deployment,), r),
    ensures
        declared matches Some(nano) ==> 1_000_000_000 <= nano < 0x1_0000_0000 * 1_000_000_000
            ==> r.0 * 1_000_000_000 <= nano < (r.0 + 1) * 1_000_000_000,
        declared matches Some(nano) ==> nano < 1_000_000_000 ==> r.0 == 1,
        declared is None ==> r.0 == 1,
{
}

/// What a VM is created with follows its deployment: the size that was read of
/// the declaration, memory that can be shared exactly where volumes are, the
/// instance's own disk before the read-only image for the first boot, a fixed
/// network exactly where ports are published, and a socket device exactly where
/// a check runs a command.
pub proof fn law_vm_is_created_as_declared(
    lifecycle: &CloudHypervisorLifecycle,
    instance_id: &str,
    deployment: &Deployment,
    fs: Vec<FsConfig>,
    cidata: bool,
    size: (u32, u32),
    r: VmConfig,
)
    requires
        call_ensures(parse_resources, (deployment,), size),
        call_ensures(vm_config, (lifecycle, instance_id, deployment, fs, cidata), r),
    ensures
        deployment.resources is None ==> size == (1u32, 256u32),
        r.cpus matches Some(c) && c.boot_vcpus == size.0 && c.max_vcpus == size.0,
        r.memory matches Some(m) && m.size == size.1 * 1_048_576 && (m.shared <==> fs@.len() > 0),
        fs@.len() > 0 ==> r.fs == Some(fs),
        fs@.len() == 0 ==> r.fs is None,
        r.disks matches Some(disks) && disks@.len() >= 1 && disks@[0].readonly == Some(false) && (
        disks@.len() == 2 <==> cidata) && (cidata ==> disks@[1].readonly == Some(true)),
        r.net matches Some(net) && net@.len() == 1 && (net@[0].tap is Some
            <==> deployment.ports@.len() > 0),
        r.vsock is Some <==> exists|i: int|
            0 <= i < deployment.health_checks@.len() && (
            #[trigger] deployment.health_checks@[i]) is Command,
        r.serial matches Some(serial) && serial.file is Some,
{
}

/// The image for the first boot is built exactly where a guest has to be told
/// of environment, volumes or published ports.
pub proof fn law_guest_is_told_what_it_needs(deployment: &Deployment, shares: usize, r: bool)
    requires
        call_ensures(needs_cidata, (deployment, shares), r),
    ensures
        !r <==> deployment.environment@.len() == 0 && shares == 0 && deployment.ports@.len() == 0,
{
}

/// The plan of a start has a step for every published port, and the error of a
/// failed step says what it is about: the firmware, the image, the port that is
/// taken, or the step itself with the text of the error behind it.
pub proof fn law_failed_start_is_explained(
    lifecycle: &CloudHypervisorLifecycle,
    deployment: &Deployment,
    mounts: usize,
    plan: StartPlan,
    step: StartStep,
    detail: &str,
    r: RuntimeError,
)
    requires
        call_ensures(plan_start, (deployment, mounts), plan),
        call_ensures(start_error_for, (lifecycle, deployment, step, detail), r),
    ensures
        plan.ports == deployment.ports@.len(),
        plan.cidata <==> deployment.environment@.len() > 0 || mounts > 0 || deployment.ports@.len()
            > 0,
        r is FirmwareNotFound <==> step is CheckFirmware,
        r is ImageNotFound <==> step is CheckImage,
        r is PortAlreadyInUse <==> (step matches StartStep::CheckPort(i) && i
            < deployment.ports@.len()),
        step matches StartStep::CheckPort(i) ==> (i < deployment.ports@.len() ==> r@
            == RuntimeErrorView::PortAlreadyInUse(deployment.ports@[i as int].published)),
        r is VmStartFailed <==> (step is CopyImage || step is Spawn || step is AwaitSocket || step
            is ShareVolumes || step is CreateVm || step is BootVm),
        step is CopyImage || step is Spawn || step is ShareVolumes || step is CreateVm || step
            is BootVm ==> detail@.is_suffix_of(r@->VmStartFailed_0),
{
    if r is VmStartFailed {
        let text = r@->VmStartFailed_0;
        if !(step is AwaitSocket) {
            assert(text.subrange(text.len() - detail@.len(), text.len() as int) =~= detail@);
        }
    }
}

/// A VM needs the socket device exactly where some check is a command.
pub proof fn law_command_check_needs_the_socket_device(d: &Deployment, at: int, r: bool)
    requires
        call_ensures(needs_vsock, (d,), r),
        0 <= at < d.health_checks@.len(),
    ensures
        d.health_checks@[at] is Command ==> r,
        (forall|i: int|
            0 <= i < d.health_checks@.len() ==> !(#[trigger] d.health_checks@[i] is Command))
            ==> !r,
{
}

/// A VMM is told the socket of its instance, and how it is confined exactly where
/// the operator says so; a disk is copied from one path to the other; and a mebibyte
/// is 1024 times 1024 bytes.
pub proof fn law_vmm_is_told_its_socket(
    l: &CloudHypervisorLifecycle,
    id: &str,
    socket: String,
    r: Vec<String>,
    from: &str,
    to: &str,
    copy: Vec<String>,
    mib: u32,
    bytes: u64,
)
    requires
        call_ensures(CloudHypervisorLifecycle::socket_path, (l, id), socket),
        call_ensures(vmm_arguments, (l, id), r),
        call_ensures(copy_arguments, (from, to), copy),
        call_ensures(mib_to_bytes, (mib,), bytes),
    ensures
        r@.len() >= 2 && r@[0]@ == "--api-socket"@ && r@[1]@ == socket@,
        l.config.seccomp is None <==> r@.len() == 2,
        l.config.seccomp matches Some(mode) ==> r@.len() == 4 && r@[2]@ == "--seccomp"@ && r@[3]@
            == mode@,
        copy@.len() == 3 && copy@[1]@ == from@ && copy@[2]@ == to@,
        bytes == mib * 1024 * 1024,
{
    let a = strs(r@);
    assert(a.len() == r@.len());
    assert(a[0] == r@[0]@ && a[1] == r@[1]@);
    if l.config.seccomp is Some {
        assert(a[2] == r@[2]@ && a[3] == r@[3]@);
    }
    let c = strs(copy@);
    assert(c.len() == copy@.len());
    assert(c[1] == copy@[1]@ && c[2] == copy@[2]@);
}

/// A VM that has started stays so, a start that failed stays failed, and one that is
/// undone has failed, whatever is reported then.
pub proof fn law_end_of_a_start_is_final(plan: StartPlan, step: StartStep, ok: bool, r: StartStep)
    requires
        call_ensures(next_start_step, (plan, step, ok), r),
    ensures
        step is Started ==> r is Started,
        step is Failed || step is Undo ==> r is Failed,
        r is Started ==> step is Started || ok,
{
}

} // verus!
