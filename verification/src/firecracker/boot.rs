//! Booting a machine: what it is told, request by request, and the steps from a
//! look at the kernel to a machine whose ports are forwarded.
use vstd::prelude::*;
use vstd::utf8::encode_utf8;
use crate::cloud_hypervisor::start::{has_command_check, needs_vsock};
use crate::error::{RuntimeError, RuntimeErrorView};
use crate::firecracker::client::{BootSource, Drive, MachineConfig, NetworkInterface, Vsock};
use crate::firecracker::lifecycle::{FirecrackerLifecycle, machine_file};
use crate::host_net::{InstanceNet, cid_for_instance, fnv, guest_cid, hash_mac, slot_ip, slot_tap, subnet_slot};
use crate::models::{Deployment, Resource, ResourceSpec};
use crate::resources::{declared_cpu, declared_memory, spec_cpu, spec_memory};
use crate::steps::{Run, advanced, fresh, lemma_run_ends, lemma_run_keeps, run_on};
use crate::text::{cat2, cat3, cat4, cat6, cat7, decimal, decimal_u64, opt_str, power, strs};

verus! {

// ---------------------------------------------------------------------------
// Resources and addresses
// ---------------------------------------------------------------------------

/// The side of the declared resources that sizes a machine: the limits, or the
/// requests where there are no limits.
pub open spec fn sizing_spec(d: &Deployment) -> Option<ResourceSpec> {
    match d.resources {
        Some(r) => if r.limits is Some {
            r.limits
        } else {
            r.requests
        },
        None => None,
    }
}

/// The CPUs for a share in billionths of a core: rounded up, at least one.
pub open spec fn vcpus_rounded_up(nano: int) -> int {
    let whole = (nano + 999_999_999) / 1_000_000_000;
    let most = if whole < 1 {
        1
    } else {
        whole
    };
    most % 0x1_0000_0000
}

/// The CPUs of a deployment's machines.
pub open spec fn machine_vcpus(d: &Deployment) -> int {
    match spec_cpu(sizing_spec(d)) {
        Some(nano) => vcpus_rounded_up(nano),
        None => 1,
    }
}

/// The memory of a deployment's machines in mebibytes: 512 where nothing is
/// declared, or less than a machine can boot with.
pub open spec fn machine_memory_mib(d: &Deployment) -> int {
    match spec_memory(sizing_spec(d)) {
        Some(bytes) => {
            let whole = bytes / 1_048_576;
            let most = if whole < 1 {
                1
            } else {
                whole
            };
            let cut = most % 0x1_0000_0000;
            if cut >= 64 {
                cut
            } else {
                512
            }
        },
        None => 512,
    }
}

/// The CPUs and the memory in mebibytes of a deployment's machines. A fraction
/// of a core counts as a whole one.
pub fn parse_resources(deployment: &Deployment) -> (r: (u32, u32))
    requires
        spec_cpu(sizing_spec(deployment)) matches Some(nano) ==> nano + 999_999_999 <= i64::MAX,
    ensures
        r.0 == machine_vcpus(deployment),
        r.1 == machine_memory_mib(deployment),
{
    let mut vcpus: u32 = 1;
    let mut memory: u32 = 512;
    if let Some(resources) = &deployment.resources {
        let spec_side = if resources.limits.is_some() {
            &resources.limits
        } else {
            &resources.requests
        };
        if let Some(bytes) = declared_memory(spec_side) {
            let whole: u64 = bytes as u64 / 1_048_576;
            let most: u64 = if whole < 1 {
                1
            } else {
                whole
            };
            let cut: u32 = (most % 0x1_0000_0000) as u32;
            if cut >= 64 {
                memory = cut;
            }
        }
        if let Some(nano) = declared_cpu(spec_side) {
            let whole: u64 = (nano as u64 + 999_999_999) / 1_000_000_000;
            let most: u64 = if whole < 1 {
                1
            } else {
                whole
            };
            vcpus = (most % 0x1_0000_0000) as u32;
        }
    }
    (vcpus, memory)
}

/// One number of a netmask: the leading bits that are set in it.
pub open spec fn mask_octet(prefix_len: int, k: int) -> nat {
    let bits = prefix_len - 8 * k;
    if bits <= 0 {
        0
    } else if bits >= 8 {
        255
    } else {
        (256 - power(2, (8 - bits) as nat)) as nat
    }
}

/// A netmask in dotted form.
pub open spec fn netmask_text(prefix_len: int) -> Seq<char> {
    decimal(mask_octet(prefix_len, 0)) + "."@ + decimal(mask_octet(prefix_len, 1)) + "."@ + decimal(
        mask_octet(prefix_len, 2),
    ) + "."@ + decimal(mask_octet(prefix_len, 3))
}

/// One number of a netmask.
fn octet(prefix_len: u8, k: u8) -> (r: u64)
    requires
        k < 4,
    ensures
        r == mask_octet(prefix_len as int, k as int),
{
    proof {
        reveal_with_fuel(power, 9);
    }
    let below: u8 = 8 * k;
    if prefix_len <= below {
        return 0;
    }
    let bits: u8 = prefix_len - below;
    if bits >= 8 {
        255
    } else if bits == 1 {
        128
    } else if bits == 2 {
        192
    } else if bits == 3 {
        224
    } else if bits == 4 {
        240
    } else if bits == 5 {
        248
    } else if bits == 6 {
        252
    } else {
        254
    }
}

/// A prefix length as a netmask in dotted form. One of 32 or more sets every
/// bit.
pub fn prefix_to_netmask(prefix_len: u8) -> (r: String)
    ensures
        r@ == netmask_text(prefix_len as int),
{
    let a = decimal_u64(octet(prefix_len, 0));
    let b = decimal_u64(octet(prefix_len, 1));
    let c = decimal_u64(octet(prefix_len, 2));
    let d = decimal_u64(octet(prefix_len, 3));
    cat7(a.as_str(), ".", b.as_str(), ".", c.as_str(), ".", d.as_str())
}

/// The kernel's command line of an instance with a network of its own: the
/// kernel configures the address before anything else runs.
pub open spec fn kernel_args(base: Seq<char>, id: Seq<char>) -> Seq<char> {
    let slot = subnet_slot(id);
    base + " ip="@ + slot_ip(slot, 2) + "::"@ + slot_ip(slot, 1) + ":"@ + netmask_text(30)
        + "::eth0:off"@
}

// ---------------------------------------------------------------------------
// What a machine is told
// ---------------------------------------------------------------------------

/// The kernel of an instance and its command line.
pub fn boot_source(lifecycle: &FirecrackerLifecycle, instance_id: &str, networked: bool) -> (r:
    BootSource)
    ensures
        r.kernel_image_path@ == lifecycle.config.kernel_path@,
        opt_str(r.boot_args) == Some(
            if networked {
                kernel_args(lifecycle.config.boot_args@, instance_id@)
            } else {
                lifecycle.config.boot_args@
            },
        ),
        r.initrd_path is None,
{
    let args = if networked {
        let net = InstanceNet::for_instance(instance_id);
        let mask = prefix_to_netmask(net.prefix_len);
        let mut text = cat6(
            lifecycle.config.boot_args.as_str(),
            " ip=",
            net.guest_ip.as_str(),
            "::",
            net.host_ip.as_str(),
            ":",
        );
        text = cat3(text.as_str(), mask.as_str(), "::eth0:off");
        text
    } else {
        lifecycle.config.boot_args.clone()
    };
    BootSource {
        kernel_image_path: lifecycle.config.kernel_path.clone(),
        boot_args: Some(args),
        initrd_path: None,
    }
}

/// The root disk of an instance.
pub fn root_drive(lifecycle: &FirecrackerLifecycle, instance_id: &str) -> (r: Drive)
    ensures
        r.drive_id@ == "rootfs"@,
        r.path_on_host@ == machine_file(lifecycle.config.socket_dir@, instance_id@, ".ext4"@),
        r.is_root_device,
        !r.is_read_only,
{
    Drive {
        drive_id: "rootfs".to_owned(),
        path_on_host: lifecycle.rootfs_path(instance_id),
        is_root_device: true,
        is_read_only: false,
    }
}

/// The image for an instance's first boot.
pub fn cidata_drive(iso_path: &str) -> (r: Drive)
    ensures
        r.drive_id@ == "cidata"@,
        r.path_on_host@ == iso_path@,
        !r.is_root_device,
        r.is_read_only,
{
    Drive {
        drive_id: "cidata".to_owned(),
        path_on_host: iso_path.to_owned(),
        is_root_device: false,
        is_read_only: true,
    }
}

/// The network interface of an instance.
pub fn network_interface(instance_id: &str) -> (r: NetworkInterface)
    ensures
        r.iface_id@ == "eth0"@,
        r.host_dev_name@ == slot_tap(subnet_slot(instance_id@)),
        opt_str(r.guest_mac) == Some(hash_mac(fnv(encode_utf8(instance_id@)))),
{
    let net = InstanceNet::for_instance(instance_id);
    NetworkInterface {
        iface_id: "eth0".to_owned(),
        host_dev_name: net.tap_name,
        guest_mac: Some(net.mac),
    }
}

/// The CPUs and the memory of a deployment's machines.
pub fn machine_config(deployment: &Deployment) -> (r: MachineConfig)
    requires
        spec_cpu(sizing_spec(deployment)) matches Some(nano) ==> nano + 999_999_999 <= i64::MAX,
    ensures
        r.vcpu_count == machine_vcpus(deployment),
        r.mem_size_mib == machine_memory_mib(deployment),
{
    let (vcpu_count, mem_size_mib) = parse_resources(deployment);
    MachineConfig { vcpu_count, mem_size_mib }
}

/// The socket device of an instance.
pub fn vsock_device(lifecycle: &FirecrackerLifecycle, instance_id: &str) -> (r: Vsock)
    ensures
        r.vsock_id@ == "vsock0"@,
        r.guest_cid == guest_cid(instance_id@),
        r.uds_path@ == machine_file(lifecycle.config.socket_dir@, instance_id@, ".vsock"@),
{
    Vsock {
        vsock_id: "vsock0".to_owned(),
        guest_cid: cid_for_instance(instance_id),
        uds_path: lifecycle.vsock_path(instance_id),
    }
}

/// What the requests that configure a machine depend on.
#[derive(Clone, Copy, Debug, PartialEq, Eq, Structural)]
pub struct ConfigurePlan {
    pub volumes: usize,
    /// Whether there is an image for the first boot.
    pub cidata: bool,
    pub network: bool,
    pub vsock: bool,
}

/// A request that configures a machine.
#[derive(Clone, Copy, Debug, PartialEq, Eq, Structural)]
pub enum ConfigureStep {
    BootSource,
    RootDrive,
    Volume(usize),
    Cidata,
    Network,
    Machine,
    Vsock,
    /// Boot.
    Start,
    /// The machine was booted.
    Booted,
    /// A request failed.
    Failed,
}

/// Make the plan of the requests. There is an image for the first boot where
/// the guest has something to learn from it.
pub fn plan_configuration(deployment: &Deployment, volumes: usize, network: bool) -> (r:
    ConfigurePlan)
    ensures
        r == (ConfigurePlan {
            volumes,
            cidata: deployment.environment.len() > 0 || network || volumes > 0,
            network,
            vsock: has_command_check(deployment.health_checks@),
        }),
{
    ConfigurePlan {
        volumes,
        cidata: deployment.environment.len() > 0 || network || volumes > 0,
        network,
        vsock: needs_vsock(deployment),
    }
}

/// The first request from this place in the order on: the volumes from `i` on,
/// the image for the first boot, the network, the machine.
pub open spec fn from_volume(plan: ConfigurePlan, i: int) -> ConfigureStep {
    if i < plan.volumes {
        ConfigureStep::Volume(i as usize)
    } else if plan.cidata {
        ConfigureStep::Cidata
    } else if plan.network {
        ConfigureStep::Network
    } else {
        ConfigureStep::Machine
    }
}

/// The request that follows, given whether the last one succeeded.
pub open spec fn configure_next(plan: ConfigurePlan, step: ConfigureStep, ok: bool) -> ConfigureStep {
    match step {
        ConfigureStep::Booted => ConfigureStep::Booted,
        _ => if !ok {
            ConfigureStep::Failed
        } else {
            match step {
                ConfigureStep::BootSource => ConfigureStep::RootDrive,
                ConfigureStep::RootDrive => from_volume(plan, 0),
                ConfigureStep::Volume(i) => from_volume(plan, i + 1),
                ConfigureStep::Cidata => if plan.network {
                    ConfigureStep::Network
                } else {
                    ConfigureStep::Machine
                },
                ConfigureStep::Network => ConfigureStep::Machine,
                ConfigureStep::Machine => if plan.vsock {
                    ConfigureStep::Vsock
                } else {
                    ConfigureStep::Start
                },
                ConfigureStep::Vsock => ConfigureStep::Start,
                ConfigureStep::Start => ConfigureStep::Booted,
                ConfigureStep::Booted => ConfigureStep::Booted,
                ConfigureStep::Failed => ConfigureStep::Failed,
            }
        },
    }
}

/// The request that follows, given whether the last one succeeded.
pub fn next_configure_step(plan: ConfigurePlan, step: ConfigureStep, ok: bool) -> (r: ConfigureStep)
    ensures
        r == configure_next(plan, step, ok),
{
    if step == ConfigureStep::Booted {
        return ConfigureStep::Booted;
    }
    if !ok {
        return ConfigureStep::Failed;
    }
    let after_cidata = if plan.network {
        ConfigureStep::Network
    } else {
        ConfigureStep::Machine
    };
    let after_volumes = if plan.cidata {
        ConfigureStep::Cidata
    } else {
        after_cidata
    };
    match step {
        ConfigureStep::BootSource => ConfigureStep::RootDrive,
        ConfigureStep::RootDrive => {
            if plan.volumes > 0 {
                ConfigureStep::Volume(0)
            } else {
                after_volumes
            }
        },
        ConfigureStep::Volume(i) => {
            if i < plan.volumes && i + 1 < plan.volumes {
                ConfigureStep::Volume(i + 1)
            } else {
                after_volumes
            }
        },
        ConfigureStep::Cidata => after_cidata,
        ConfigureStep::Network => ConfigureStep::Machine,
        ConfigureStep::Machine => {
            if plan.vsock {
                ConfigureStep::Vsock
            } else {
                ConfigureStep::Start
            }
        },
        ConfigureStep::Vsock => ConfigureStep::Start,
        ConfigureStep::Start => ConfigureStep::Booted,
        ConfigureStep::Booted => ConfigureStep::Booted,
        ConfigureStep::Failed => ConfigureStep::Failed,
    }
}

// ---------------------------------------------------------------------------
// The steps of a start
// ---------------------------------------------------------------------------

/// A step of a start.
#[derive(Clone, Copy, Debug, PartialEq, Eq, Structural)]
pub enum BootStep {
    /// See whether the kernel is there.
    CheckKernel,
    /// See whether the root disk's image is there.
    CheckImage,
    /// Compare the memory that is needed with what the host has.
    CheckMemory,
    /// Create the socket directory.
    MakeSocketDir,
    /// Copy the image: a machine changes its disk.
    CopyRootfs,
    /// Start the VMM's process.
    Spawn,
    /// Wait for the control socket.
    AwaitSocket,
    /// Remove a leftover interface of the same name, and create the interface.
    CreateTap,
    /// Configure the machine and boot it.
    Configure,
    /// Forward published port `i` to the guest.
    Forward(usize),
    /// The machine is up.
    Started,
    /// The start failed; what has to be undone is undone.
    Failed,
}

/// The step that forwards port `i`, or the end where there is no such port.
pub open spec fn boot_forward(ports: usize, i: int) -> BootStep {
    if i < ports {
        BootStep::Forward(i as usize)
    } else {
        BootStep::Started
    }
}

/// The step that follows, given whether the last one succeeded.
pub open spec fn boot_next(ports: usize, step: BootStep, ok: bool) -> BootStep {
    match step {
        BootStep::Started => BootStep::Started,
        _ => if !ok {
            BootStep::Failed
        } else {
            match step {
                BootStep::CheckKernel => BootStep::CheckImage,
                BootStep::CheckImage => BootStep::CheckMemory,
                BootStep::CheckMemory => BootStep::MakeSocketDir,
                BootStep::MakeSocketDir => BootStep::CopyRootfs,
                BootStep::CopyRootfs => BootStep::Spawn,
                BootStep::Spawn => BootStep::AwaitSocket,
                BootStep::AwaitSocket => BootStep::CreateTap,
                BootStep::CreateTap => BootStep::Configure,
                BootStep::Configure => boot_forward(ports, 0),
                BootStep::Forward(i) => boot_forward(ports, i + 1),
                BootStep::Started => BootStep::Started,
                BootStep::Failed => BootStep::Failed,
            }
        },
    }
}

/// The step that follows, given whether the last one succeeded.
pub fn next_boot_step(ports: usize, step: BootStep, ok: bool) -> (r: BootStep)
    ensures
        r == boot_next(ports, step, ok),
{
    if step == BootStep::Started {
        return BootStep::Started;
    }
    if !ok {
        return BootStep::Failed;
    }
    match step {
        BootStep::CheckKernel => BootStep::CheckImage,
        BootStep::CheckImage => BootStep::CheckMemory,
        BootStep::CheckMemory => BootStep::MakeSocketDir,
        BootStep::MakeSocketDir => BootStep::CopyRootfs,
        BootStep::CopyRootfs => BootStep::Spawn,
        BootStep::Spawn => BootStep::AwaitSocket,
        BootStep::AwaitSocket => BootStep::CreateTap,
        BootStep::CreateTap => BootStep::Configure,
        BootStep::Configure => {
            if ports > 0 {
                BootStep::Forward(0)
            } else {
                BootStep::Started
            }
        },
        BootStep::Forward(i) => {
            if i < ports && i + 1 < ports {
                BootStep::Forward(i + 1)
            } else {
                BootStep::Started
            }
        },
        BootStep::Started => BootStep::Started,
        BootStep::Failed => BootStep::Failed,
    }
}

/// Something that is undone after a step failed.
#[derive(Clone, Copy, Debug, PartialEq, Eq, Structural)]
pub enum BootUndo {
    /// Ask the guest to shut down.
    AskShutdown,
    /// End the VMM's process.
    KillProcess,
    RemoveSocket,
    RemoveRootfs,
    RemoveCidata,
    /// Remove the images of the instance's own volumes.
    RemoveVolumes,
    /// Remove the interface.
    DeleteTap,
    /// End the forwarders that were started.
    StopForwarders,
}

/// What is undone after a step failed, in this order.
pub open spec fn boot_undo(step: BootStep) -> Seq<BootUndo> {
    match step {
        BootStep::AwaitSocket => seq![BootUndo::KillProcess, BootUndo::RemoveRootfs],
        BootStep::CreateTap => seq![
            BootUndo::KillProcess,
            BootUndo::RemoveSocket,
            BootUndo::RemoveRootfs,
        ],
        BootStep::Configure => seq![
            BootUndo::KillProcess,
            BootUndo::RemoveSocket,
            BootUndo::RemoveRootfs,
            BootUndo::RemoveCidata,
            BootUndo::RemoveVolumes,
            BootUndo::DeleteTap,
        ],
        BootStep::Forward(i) => seq![
            BootUndo::AskShutdown,
            BootUndo::KillProcess,
            BootUndo::RemoveSocket,
            BootUndo::RemoveRootfs,
            BootUndo::RemoveCidata,
            BootUndo::StopForwarders,
            BootUndo::DeleteTap,
        ],
        _ => seq![],
    }
}

/// What is undone after a step failed, in this order.
pub fn undo_after(step: BootStep) -> (r: Vec<BootUndo>)
    ensures
        r@ == boot_undo(step),
{
    let mut out: Vec<BootUndo> = Vec::new();
    match step {
        BootStep::AwaitSocket => {
            out.push(BootUndo::KillProcess);
            out.push(BootUndo::RemoveRootfs);
        },
        BootStep::CreateTap => {
            out.push(BootUndo::KillProcess);
            out.push(BootUndo::RemoveSocket);
            out.push(BootUndo::RemoveRootfs);
        },
        BootStep::Configure => {
            out.push(BootUndo::KillProcess);
            out.push(BootUndo::RemoveSocket);
            out.push(BootUndo::RemoveRootfs);
            out.push(BootUndo::RemoveCidata);
            out.push(BootUndo::RemoveVolumes);
            out.push(BootUndo::DeleteTap);
        },
        BootStep::Forward(_) => {
            out.push(BootUndo::AskShutdown);
            out.push(BootUndo::KillProcess);
            out.push(BootUndo::RemoveSocket);
            out.push(BootUndo::RemoveRootfs);
            out.push(BootUndo::RemoveCidata);
            out.push(BootUndo::StopForwarders);
            out.push(BootUndo::DeleteTap);
        },
        _ => {},
    }
    assert(out@ =~= boot_undo(step));
    out
}

/// What a failed step is reported as, where the step itself says it. `detail`
/// is the text of the error behind it. Steps whose own error is handed on are
/// left to the caller.
pub open spec fn boot_failure(
    lifecycle: FirecrackerLifecycle,
    image: Seq<char>,
    id: Seq<char>,
    step: BootStep,
    detail: Seq<char>,
) -> RuntimeErrorView {
    match step {
        BootStep::CheckKernel => RuntimeErrorView::VmStartFailed(
            "kernel image not found at '"@ + lifecycle.config.kernel_path@
                + "' (set [server.runtime.firecracker] kernel_path)"@,
        ),
        BootStep::CheckImage => RuntimeErrorView::ImageNotFound(
            "rootfs image '"@ + image + "' not found on host"@,
        ),
        BootStep::MakeSocketDir => RuntimeErrorView::VmStartFailed(
            "could not create socket_dir '"@ + lifecycle.config.socket_dir@ + "': "@ + detail,
        ),
        BootStep::CopyRootfs => RuntimeErrorView::VmStartFailed(
            "could not copy rootfs '"@ + image + "' -> '"@ + machine_file(
                lifecycle.config.socket_dir@,
                id,
                ".ext4"@,
            ) + "': "@ + detail,
        ),
        BootStep::Spawn => RuntimeErrorView::VmStartFailed(
            "could not spawn firecracker: "@ + detail,
        ),
        BootStep::AwaitSocket => RuntimeErrorView::VmStartFailed(
            "firecracker API socket never appeared"@,
        ),
        BootStep::Configure => RuntimeErrorView::VmStartFailed(
            "configure/boot failed for "@ + id + ": "@ + detail,
        ),
        _ => RuntimeErrorView::Other(detail),
    }
}

/// What a failed step is reported as.
pub fn boot_error_for(
    lifecycle: &FirecrackerLifecycle,
    deployment: &Deployment,
    instance_id: &str,
    step: BootStep,
    detail: &str,
) -> (r: RuntimeError)
    ensures
        r@ == boot_failure(*lifecycle, deployment.image@, instance_id@, step, detail@),
{
    match step {
        BootStep::CheckKernel => RuntimeError::VmStartFailed(
            cat3(
                "kernel image not found at '",
                lifecycle.config.kernel_path.as_str(),
                "' (set [server.runtime.firecracker] kernel_path)",
            ),
        ),
        BootStep::CheckImage => RuntimeError::ImageNotFound(
            cat3("rootfs image '", deployment.image.as_str(), "' not found on host"),
        ),
        BootStep::MakeSocketDir => RuntimeError::VmStartFailed(
            cat4(
                "could not create socket_dir '",
                lifecycle.config.socket_dir.as_str(),
                "': ",
                detail,
            ),
        ),
        BootStep::CopyRootfs => {
            let target = lifecycle.rootfs_path(instance_id);
            RuntimeError::VmStartFailed(
                cat6(
                    "could not copy rootfs '",
                    deployment.image.as_str(),
                    "' -> '",
                    target.as_str(),
                    "': ",
                    detail,
                ),
            )
        },
        BootStep::Spawn => RuntimeError::VmStartFailed(
            cat2("could not spawn firecracker: ", detail),
        ),
        BootStep::AwaitSocket => RuntimeError::VmStartFailed(
            "firecracker API socket never appeared".to_owned(),
        ),
        BootStep::Configure => RuntimeError::VmStartFailed(
            cat4("configure/boot failed for ", instance_id, ": ", detail),
        ),
        _ => RuntimeError::Other(detail.to_owned()),
    }
}

/// The arguments of the VMM's program.
pub fn vmm_arguments(lifecycle: &FirecrackerLifecycle, instance_id: &str) -> (r: Vec<String>)
    ensures
        strs(r@) == seq![
            "--api-sock"@,
            machine_file(lifecycle.config.socket_dir@, instance_id@, ".sock"@),
        ],
{
    let mut out: Vec<String> = Vec::new();
    out.push("--api-sock".to_owned());
    out.push(lifecycle.socket_path(instance_id));
    assert(strs(out@) =~= seq![
        "--api-sock"@,
        machine_file(lifecycle.config.socket_dir@, instance_id@, ".sock"@),
    ]);
    out
}

// ---------------------------------------------------------------------------
// Laws
// ---------------------------------------------------------------------------

/// A start that fails once the VMM's process runs ends that process and removes
/// the instance's disk.
pub proof fn law_failed_boot_leaves_no_process(step: BootStep)
    requires
        step is AwaitSocket || step is CreateTap || step is Configure || step is Forward,
    ensures
        boot_undo(step).contains(BootUndo::KillProcess),
        boot_undo(step).contains(BootUndo::RemoveRootfs),
        step is Configure || step is Forward ==> boot_undo(step).contains(BootUndo::DeleteTap)
            && boot_undo(step).contains(BootUndo::RemoveSocket) && boot_undo(step).contains(
            BootUndo::RemoveCidata,
        ),
{
    let undo = boot_undo(step);
    match step {
        BootStep::AwaitSocket => {
            assert(undo[0] == BootUndo::KillProcess);
            assert(undo[1] == BootUndo::RemoveRootfs);
        },
        BootStep::CreateTap => {
            assert(undo[0] == BootUndo::KillProcess);
            assert(undo[2] == BootUndo::RemoveRootfs);
        },
        BootStep::Configure => {
            assert(undo[0] == BootUndo::KillProcess);
            assert(undo[1] == BootUndo::RemoveSocket);
            assert(undo[2] == BootUndo::RemoveRootfs);
            assert(undo[3] == BootUndo::RemoveCidata);
            assert(undo[5] == BootUndo::DeleteTap);
        },
        BootStep::Forward(i) => {
            assert(undo[1] == BootUndo::KillProcess);
            assert(undo[2] == BootUndo::RemoveSocket);
            assert(undo[3] == BootUndo::RemoveRootfs);
            assert(undo[4] == BootUndo::RemoveCidata);
            assert(undo[6] == BootUndo::DeleteTap);
        },
        _ => {},
    }
}

/// The root disk is attached before any volume, the volumes one after the other
/// before the image for the first boot, and the machine is booted last: so the
/// devices of the volumes do not depend on what else is attached.
pub proof fn law_volumes_follow_the_root_disk(plan: ConfigurePlan, i: nat)
    requires
        i < plan.volumes,
    ensures
        configure_next(plan, ConfigureStep::RootDrive, true) == ConfigureStep::Volume(0),
        i + 1 < plan.volumes ==> configure_next(plan, ConfigureStep::Volume(i as usize), true)
            == ConfigureStep::Volume((i + 1) as usize),
        i + 1 == plan.volumes && plan.cidata ==> configure_next(
            plan,
            ConfigureStep::Volume(i as usize),
            true,
        ) == ConfigureStep::Cidata,
        configure_next(plan, ConfigureStep::Start, true) == ConfigureStep::Booted,
{
}

/// How many requests can still be made.
pub open spec fn configure_rank(plan: ConfigurePlan, step: ConfigureStep) -> int {
    match step {
        ConfigureStep::BootSource => plan.volumes + 8,
        ConfigureStep::RootDrive => plan.volumes + 7,
        ConfigureStep::Volume(i) => if i < plan.volumes {
            plan.volumes - i + 6
        } else {
            6
        },
        ConfigureStep::Cidata => 5,
        ConfigureStep::Network => 4,
        ConfigureStep::Machine => 3,
        ConfigureStep::Vsock => 2,
        ConfigureStep::Start => 1,
        ConfigureStep::Booted => 0,
        ConfigureStep::Failed => 0,
    }
}

/// The configuration of a machine comes to an end.
pub proof fn law_configuration_ends(plan: ConfigurePlan, step: ConfigureStep, ok: bool)
    ensures
        !(step is Booted) && !(step is Failed) ==> 0 <= configure_rank(
            plan,
            configure_next(plan, step, ok),
        ) < configure_rank(plan, step),
{
}

/// How many steps a start can still take.
pub open spec fn boot_rank(ports: usize, step: BootStep) -> int {
    match step {
        BootStep::CheckKernel => ports + 11,
        BootStep::CheckImage => ports + 10,
        BootStep::CheckMemory => ports + 9,
        BootStep::MakeSocketDir => ports + 8,
        BootStep::CopyRootfs => ports + 7,
        BootStep::Spawn => ports + 6,
        BootStep::AwaitSocket => ports + 5,
        BootStep::CreateTap => ports + 4,
        BootStep::Configure => ports + 3,
        BootStep::Forward(i) => if i < ports {
            ports - i + 1
        } else {
            1
        },
        BootStep::Started => 0,
        BootStep::Failed => 0,
    }
}

/// A start comes to an end, and only a machine that was configured and whose
/// ports are forwarded counts as started.
pub proof fn law_boot_ends(ports: usize, step: BootStep, ok: bool)
    ensures
        !(step is Started) && !(step is Failed) ==> 0 <= boot_rank(
            ports,
            boot_next(ports, step, ok),
        ) < boot_rank(ports, step),
        boot_next(ports, step, ok) is Started && !(step is Started) ==> ok && (step is Configure
            || step is Forward),
{
}

/// Whether the VMM's process runs while this step is taken.
pub open spec fn process_runs(step: BootStep) -> bool {
    step is AwaitSocket || step is CreateTap || step is Configure || step is Forward
        || step is Started
}

/// Where a start stands after some outcomes, and whether the VMM's process
/// runs. What a step that fails has to undo is undone with it.
pub open spec fn boot_after(ports: usize, step: BootStep, process: bool, outcomes: Seq<bool>) -> (
    BootStep,
    bool,
)
    decreases outcomes.len(),
{
    if outcomes.len() == 0 {
        (step, process)
    } else {
        let ok = outcomes[0];
        let process_next = if !ok && boot_undo(step).contains(BootUndo::KillProcess) {
            false
        } else if step is Spawn {
            ok
        } else {
            process
        };
        boot_after(ports, boot_next(ports, step, ok), process_next, outcomes.skip(1))
    }
}

/// However its steps turn out, a start from its beginning leaves a process
/// behind exactly where it succeeds, and it comes to an end.
pub proof fn law_whole_boot(ports: usize, outcomes: Seq<bool>)
    ensures
        ({
            let (step, process) = boot_after(ports, BootStep::CheckKernel, false, outcomes);
            &&& step is Failed ==> !process
            &&& step is Started ==> process
        }),
        outcomes.len() >= ports + 11 ==> {
            let step = boot_after(ports, BootStep::CheckKernel, false, outcomes).0;
            step is Failed || step is Started
        },
{
    lemma_boot_run(ports, BootStep::CheckKernel, outcomes);
}

/// A run from any step keeps track of the process, and ends.
proof fn lemma_boot_run(ports: usize, step: BootStep, outcomes: Seq<bool>)
    ensures
        ({
            let (end, process) = boot_after(ports, step, process_runs(step), outcomes);
            &&& process == process_runs(end)
            &&& outcomes.len() >= boot_rank(ports, step) ==> end is Failed || end is Started
        }),
    decreases outcomes.len(),
{
    if outcomes.len() > 0 {
        law_boot_ends(ports, step, outcomes[0]);
        if step is AwaitSocket || step is CreateTap || step is Configure || step is Forward {
            law_failed_boot_leaves_no_process(step);
        }
        lemma_boot_run(ports, boot_next(ports, step, outcomes[0]), outcomes.skip(1));
    }
}

/// The place of a request in the order of a configuration that goes well; none
/// where one failed.
pub open spec fn configure_place(step: ConfigureStep) -> int {
    match step {
        ConfigureStep::BootSource => 0,
        ConfigureStep::RootDrive => 1,
        ConfigureStep::Volume(_) => 2,
        ConfigureStep::Cidata => 3,
        ConfigureStep::Network => 4,
        ConfigureStep::Machine => 5,
        ConfigureStep::Vsock => 6,
        ConfigureStep::Start => 7,
        ConfigureStep::Booted => 8,
        ConfigureStep::Failed => -1,
    }
}

/// Whether a configuration is over.
pub open spec fn configuration_is_over(step: ConfigureStep) -> bool {
    step is Booted || step is Failed
}

/// A configuration from its beginning, after requests with these outcomes.
pub open spec fn configuration_run(plan: ConfigurePlan, outcomes: Seq<bool>) -> Run<ConfigureStep, bool> {
    run_on(
        |step: ConfigureStep, o: bool| configure_next(plan, step, o),
        |step: ConfigureStep| configuration_is_over(step),
        fresh(ConfigureStep::BootSource),
        outcomes,
    )
}

/// What was done where a configuration stands.
spec fn configuration_history(plan: ConfigurePlan, run: Run<ConfigureStep, bool>) -> bool {
    let at = configure_place(run.step);
    &&& at > 0 ==> run.done(ConfigureStep::BootSource)
    &&& at > 1 ==> run.done(ConfigureStep::RootDrive)
    &&& run.step matches ConfigureStep::Volume(i) ==> i < plan.volumes && forall|j: usize|
        j < i ==> #[trigger] run.done(ConfigureStep::Volume(j))
    &&& at > 2 ==> forall|j: usize|
        j < plan.volumes ==> #[trigger] run.done(ConfigureStep::Volume(j))
    &&& forall|j: usize| #[trigger] run.tried(ConfigureStep::Volume(j)) ==> j < plan.volumes
    &&& at == 3 ==> plan.cidata
    &&& run.tried(ConfigureStep::Cidata) ==> plan.cidata
    &&& at > 3 && plan.cidata ==> run.done(ConfigureStep::Cidata)
    &&& at == 4 ==> plan.network
    &&& run.tried(ConfigureStep::Network) ==> plan.network
    &&& at > 4 && plan.network ==> run.done(ConfigureStep::Network)
    &&& at > 5 ==> run.done(ConfigureStep::Machine)
    &&& at == 6 ==> plan.vsock
    &&& run.tried(ConfigureStep::Vsock) ==> plan.vsock
    &&& at > 6 && plan.vsock ==> run.done(ConfigureStep::Vsock)
    &&& at > 7 ==> run.done(ConfigureStep::Start)
    &&& at >= 0 ==> forall|s: ConfigureStep| !#[trigger] run.failed(s)
    &&& run.step is Failed ==> exists|s: ConfigureStep| #[trigger] run.failed(s)
}

/// A step keeps the history.
proof fn lemma_configuration_history(plan: ConfigurePlan, r: Run<ConfigureStep, bool>, o: bool, after: Run<ConfigureStep, bool>)
    requires
        configuration_history(plan, r),
        !configuration_is_over(r.step),
        after.step == configure_next(plan, r.step, o),
        after.seen == r.seen.insert((r.step, o)),
    ensures
        configuration_history(plan, after),
{
    assert(forall|s: ConfigureStep| #[trigger] after.done(s) <==> r.done(s) || (s == r.step && o));
    assert(forall|s: ConfigureStep| #[trigger] after.failed(s) <==> r.failed(s) || (s == r.step && !o));
    assert(forall|s: ConfigureStep| #[trigger] after.tried(s) <==> r.tried(s) || s == r.step);
    assert(!o ==> after.failed(r.step));
}

/// However its requests turn out, a machine that is booted was told its kernel,
/// its root disk, every volume, the image for the first boot, the network and the
/// socket device where there are such, and its size, in this order and before it
/// was started; and no request has failed. Nothing is attached that the plan does
/// not hold. Where every request succeeds the machine is booted.
pub proof fn law_booted_means_configured(plan: ConfigurePlan, outcomes: Seq<bool>)
    ensures
        ({
            let run = configuration_run(plan, outcomes);
            let at = configure_place(run.step);
            &&& at > 0 ==> run.done(ConfigureStep::BootSource)
            &&& at > 1 ==> run.done(ConfigureStep::RootDrive)
            &&& at > 2 ==> forall|i: usize|
                i < plan.volumes ==> #[trigger] run.done(ConfigureStep::Volume(i))
            &&& at > 3 ==> (run.done(ConfigureStep::Cidata) <==> plan.cidata)
            &&& at > 4 ==> (run.done(ConfigureStep::Network) <==> plan.network)
            &&& at > 5 ==> run.done(ConfigureStep::Machine)
            &&& at > 6 ==> (run.done(ConfigureStep::Vsock) <==> plan.vsock)
            &&& run.step is Booted ==> run.done(ConfigureStep::Start)
            &&& forall|i: usize| #[trigger] run.tried(ConfigureStep::Volume(i)) ==> i
                < plan.volumes
            &&& run.tried(ConfigureStep::Cidata) ==> plan.cidata
            &&& run.tried(ConfigureStep::Network) ==> plan.network
            &&& run.tried(ConfigureStep::Vsock) ==> plan.vsock
            &&& run.step is Booted ==> forall|s: ConfigureStep| !#[trigger] run.failed(s)
            &&& run.step is Failed ==> exists|s: ConfigureStep| #[trigger] run.failed(s)
            &&& outcomes.len() >= plan.volumes + 8 && (forall|s: ConfigureStep|
                !#[trigger] run.failed(s)) ==> run.step is Booted
        }),
{
    let next = |step: ConfigureStep, o: bool| configure_next(plan, step, o);
    let over = |step: ConfigureStep| configuration_is_over(step);
    let inv = |run: Run<ConfigureStep, bool>| configuration_history(plan, run);
    let first = fresh::<ConfigureStep, bool>(ConfigureStep::BootSource);
    assert forall|r: Run<ConfigureStep, bool>, o: bool| inv(r) && !over(r.step) implies inv(
        #[trigger] advanced(next, r, o),
    ) by {
        lemma_configuration_history(plan, r, o, advanced(next, r, o));
    }
    lemma_run_keeps(next, over, inv, first, outcomes);
    if outcomes.len() >= plan.volumes + 8 {
        let rank = |step: ConfigureStep| configure_rank(plan, step);
        assert forall|s: ConfigureStep, o: bool| !over(s) implies 0 <= rank(#[trigger] next(s, o))
            < rank(s) by {
            law_configuration_ends(plan, s, o);
        }
        lemma_run_ends(next, over, rank, first, outcomes);
    }
}

/// The place of a step in the order of a start that goes well; none where one
/// failed.
pub open spec fn boot_place(step: BootStep) -> int {
    match step {
        BootStep::CheckKernel => 0,
        BootStep::CheckImage => 1,
        BootStep::CheckMemory => 2,
        BootStep::MakeSocketDir => 3,
        BootStep::CopyRootfs => 4,
        BootStep::Spawn => 5,
        BootStep::AwaitSocket => 6,
        BootStep::CreateTap => 7,
        BootStep::Configure => 8,
        BootStep::Forward(_) => 9,
        BootStep::Started => 10,
        BootStep::Failed => -1,
    }
}

/// Whether a start is over.
pub open spec fn boot_is_over(step: BootStep) -> bool {
    step is Started || step is Failed
}

/// A start from its beginning, after steps with these outcomes.
pub open spec fn boot_run(ports: usize, outcomes: Seq<bool>) -> Run<BootStep, bool> {
    run_on(
        |step: BootStep, o: bool| boot_next(ports, step, o),
        |step: BootStep| boot_is_over(step),
        fresh(BootStep::CheckKernel),
        outcomes,
    )
}

/// What was done where a start stands.
spec fn boot_history(ports: usize, run: Run<BootStep, bool>) -> bool {
    let at = boot_place(run.step);
    &&& at > 0 ==> run.done(BootStep::CheckKernel)
    &&& at > 1 ==> run.done(BootStep::CheckImage)
    &&& at > 2 ==> run.done(BootStep::CheckMemory)
    &&& at > 3 ==> run.done(BootStep::MakeSocketDir)
    &&& at > 4 ==> run.done(BootStep::CopyRootfs)
    &&& at > 5 ==> run.done(BootStep::Spawn)
    &&& at > 6 ==> run.done(BootStep::AwaitSocket)
    &&& at > 7 ==> run.done(BootStep::CreateTap)
    &&& at > 8 ==> run.done(BootStep::Configure)
    &&& run.step matches BootStep::Forward(i) ==> i < ports && forall|j: usize|
        j < i ==> #[trigger] run.done(BootStep::Forward(j))
    &&& at > 9 ==> forall|j: usize| j < ports ==> #[trigger] run.done(BootStep::Forward(j))
    &&& forall|j: usize| #[trigger] run.tried(BootStep::Forward(j)) ==> j < ports
    &&& at >= 0 ==> forall|s: BootStep| !#[trigger] run.failed(s)
    &&& run.step is Failed ==> exists|s: BootStep| #[trigger] run.failed(s)
}

/// A step keeps the history.
proof fn lemma_boot_history(ports: usize, r: Run<BootStep, bool>, o: bool, after: Run<BootStep, bool>)
    requires
        boot_history(ports, r),
        !boot_is_over(r.step),
        after.step == boot_next(ports, r.step, o),
        after.seen == r.seen.insert((r.step, o)),
    ensures
        boot_history(ports, after),
{
    assert(forall|s: BootStep| #[trigger] after.done(s) <==> r.done(s) || (s == r.step && o));
    assert(forall|s: BootStep| #[trigger] after.failed(s) <==> r.failed(s) || (s == r.step && !o));
    assert(forall|s: BootStep| #[trigger] after.tried(s) <==> r.tried(s) || s == r.step);
    assert(!o ==> after.failed(r.step));
}

/// However its steps turn out, a machine that is reported as started was checked
/// for first, has its own disk, its process, its interface and its configuration,
/// in this order, and has every published port forwarded after that; and no step
/// has failed. A step that fails is the only reason for a failure, and a start
/// whose steps all succeed is started.
pub proof fn law_started_machine_is_served(ports: usize, outcomes: Seq<bool>)
    ensures
        ({
            let run = boot_run(ports, outcomes);
            let at = boot_place(run.step);
            &&& at > 0 ==> run.done(BootStep::CheckKernel)
            &&& at > 1 ==> run.done(BootStep::CheckImage)
            &&& at > 2 ==> run.done(BootStep::CheckMemory)
            &&& at > 3 ==> run.done(BootStep::MakeSocketDir)
            &&& at > 4 ==> run.done(BootStep::CopyRootfs)
            &&& at > 5 ==> run.done(BootStep::Spawn)
            &&& at > 6 ==> run.done(BootStep::AwaitSocket)
            &&& at > 7 ==> run.done(BootStep::CreateTap)
            &&& at > 8 ==> run.done(BootStep::Configure)
            &&& run.step is Started ==> forall|i: usize|
                i < ports ==> #[trigger] run.done(BootStep::Forward(i))
            &&& forall|i: usize| #[trigger] run.tried(BootStep::Forward(i)) ==> i < ports
            &&& run.step is Started ==> forall|s: BootStep| !#[trigger] run.failed(s)
            &&& run.step is Failed ==> exists|s: BootStep| #[trigger] run.failed(s)
            &&& outcomes.len() >= ports + 11 && (forall|s: BootStep| !#[trigger] run.failed(s))
                ==> run.step is Started
        }),
{
    let next = |step: BootStep, o: bool| boot_next(ports, step, o);
    let over = |step: BootStep| boot_is_over(step);
    let inv = |run: Run<BootStep, bool>| boot_history(ports, run);
    let first = fresh::<BootStep, bool>(BootStep::CheckKernel);
    assert forall|r: Run<BootStep, bool>, o: bool| inv(r) && !over(r.step) implies inv(
        #[trigger] advanced(next, r, o),
    ) by {
        lemma_boot_history(ports, r, o, advanced(next, r, o));
    }
    lemma_run_keeps(next, over, inv, first, outcomes);
    if outcomes.len() >= ports + 11 {
        let rank = |step: BootStep| boot_rank(ports, step);
        assert forall|s: BootStep, o: bool| !over(s) implies 0 <= rank(#[trigger] next(s, o))
            < rank(s) by {
            law_boot_ends(ports, s, o);
        }
        lemma_run_ends(next, over, rank, first, outcomes);
    }
}

/// A machine is given the memory that its deployment declares, in whole
/// mebibytes and never more than that. The limits count where there are any,
/// else the requests. Less than a machine can boot with, and nothing that can
/// be read, give the default; the mebibytes are counted in 32 bits.
pub proof fn law_machine_gets_the_declared_memory(
    deployment: &Deployment,
    resources: Resource,
    side: &Option<ResourceSpec>,
    declared: Option<i64>,
    r: (u32, u32),
)
    requires
        deployment.resources == Some(resources),
        resources.limits is Some ==> *side == resources.limits,
        resources.limits is None ==> *side == resources.requests,
        call_ensures(declared_memory, (side,), declared),
        call_ensures(parse_resources, (deployment,), r),
    ensures
        declared matches Some(b) ==> 64 * 1_048_576 <= b < 0x1_0000_0000 * 1_048_576 ==> r.1
            * 1_048_576 <= b < (r.1 + 1) * 1_048_576,
        declared matches Some(b) ==> b < 64 * 1_048_576 ==> r.1 == 512,
        declared matches Some(b) ==> r.1 != 512 ==> exists|turns: int|
            #![trigger turns * 0x1_0000_0000]
            0 <= turns && (r.1 + turns * 0x1_0000_0000) * 1_048_576 <= b < (r.1 + turns
                * 0x1_0000_0000 + 1) * 1_048_576,
        declared is None ==> r.1 == 512,
        r.1 >= 64,
{
    if let Some(b) = declared {
        let whole = (b as int) / 1_048_576;
        let turns = whole / 0x1_0000_0000;
        assert(whole == turns * 0x1_0000_0000 + whole % 0x1_0000_0000);
        assert(whole * 1_048_576 <= b < (whole + 1) * 1_048_576);
        if r.1 != 512 {
            assert(r.1 == whole % 0x1_0000_0000);
        }
    }
}

/// A machine is given as many CPUs as hold the share that its deployment
/// declares, and not one more: a fraction of a core counts as a whole one. One
/// is the least, also where nothing that can be read is declared.
pub proof fn law_machine_gets_the_declared_cpus(
    deployment: &Deployment,
    resources: Resource,
    side: &Option<ResourceSpec>,
    declared: Option<i64>,
    r: (u32, u32),
)
    requires
        deployment.resources == Some(resources),
        resources.limits is Some ==> *side == resources.limits,
        resources.limits is None ==> *side == resources.requests,
        call_ensures(declared_cpu, (side,), declared),
        call_ensures(parse_resources, (deployment,), r),
    ensures
        declared matches Some(nano) ==> 1 <= nano <= 0xffff_ffff * 1_000_000_000 ==> (r.0 - 1)
            * 1_000_000_000 < nano <= r.0 * 1_000_000_000,
        declared == Some(0i64) ==> r.0 == 1,
        declared is None ==> r.0 == 1,
{
}

/// A deployment without declared resources is given one CPU and the default
/// memory, and what a machine is told is what was read of the declaration.
pub proof fn law_machine_is_told_its_size(
    deployment: &Deployment,
    r: (u32, u32),
    told: MachineConfig,
)
    requires
        call_ensures(parse_resources, (deployment,), r),
        call_ensures(machine_config, (deployment,), told),
    ensures
        deployment.resources is None ==> r == (1u32, 512u32),
        told.vcpu_count == r.0,
        told.mem_size_mib == r.1,
{
}

/// The image for the first boot is attached exactly where a guest has to be told
/// of environment, volumes or network, and a socket device exactly where a check
/// runs a command.
pub proof fn law_machine_is_planned_as_declared(
    deployment: &Deployment,
    volumes: usize,
    network: bool,
    r: ConfigurePlan,
)
    requires
        call_ensures(plan_configuration, (deployment, volumes, network), r),
    ensures
        r.volumes == volumes,
        r.network == network,
        !r.cidata <==> deployment.environment@.len() == 0 && !network && volumes == 0,
        r.vsock <==> exists|i: int|
            0 <= i < deployment.health_checks@.len() && (
            #[trigger] deployment.health_checks@[i]) is Command,
{
}

/// The kernel's command line is the configured one; with a network of its own the
/// instance's addresses are added behind it, the guest's before the host's, which
/// is its gateway.
pub proof fn law_kernel_is_told_the_addresses(
    lifecycle: &FirecrackerLifecycle,
    instance_id: &str,
    net: InstanceNet,
    plain: BootSource,
    networked: BootSource,
)
    requires
        call_ensures(InstanceNet::for_instance, (instance_id,), net),
        call_ensures(boot_source, (lifecycle, instance_id, false), plain),
        call_ensures(boot_source, (lifecycle, instance_id, true), networked),
    ensures
        plain.kernel_image_path@ == lifecycle.config.kernel_path@,
        networked.kernel_image_path@ == lifecycle.config.kernel_path@,
        opt_str(plain.boot_args) == Some(lifecycle.config.boot_args@),
        networked.boot_args is Some,
        (lifecycle.config.boot_args@ + " ip="@ + net.guest_ip@ + "::"@ + net.host_ip@
            + ":"@).is_prefix_of(networked.boot_args->0@),
        "::eth0:off"@.is_suffix_of(networked.boot_args->0@),
{
    let head = lifecycle.config.boot_args@ + " ip="@ + net.guest_ip@ + "::"@ + net.host_ip@ + ":"@;
    let text = networked.boot_args->0@;
    assert(text.subrange(0, head.len() as int) =~= head);
    let tail = "::eth0:off"@;
    assert(text.subrange(text.len() - tail.len(), text.len() as int) =~= tail);
}

/// A machine boots from its own disk, which it can write to and which is the only
/// root device; the image for its first boot is read-only.
pub proof fn law_root_disk_is_the_instances_own(
    lifecycle: &FirecrackerLifecycle,
    instance_id: &str,
    iso_path: &str,
    own: String,
    root: Drive,
    cidata: Drive,
)
    requires
        call_ensures(FirecrackerLifecycle::rootfs_path, (lifecycle, instance_id), own),
        call_ensures(root_drive, (lifecycle, instance_id), root),
        call_ensures(cidata_drive, (iso_path,), cidata),
    ensures
        root.is_root_device && !root.is_read_only && root.path_on_host@ == own@,
        !cidata.is_root_device && cidata.is_read_only && cidata.path_on_host@ == iso_path@,
        root.drive_id@ != cidata.drive_id@,
{
    reveal_strlit("rootfs");
    reveal_strlit("cidata");
    assert("rootfs"@[0] != "cidata"@[0]);
}

/// What a failed step leaves to be undone: the process exactly where it runs, and
/// before its files; the copied disk with it; the interface only after the
/// process that uses it; and a guest that is up is asked to shut down first.
pub proof fn law_boot_is_undone_in_order(step: BootStep, r: Vec<BootUndo>)
    requires
        call_ensures(undo_after, (step,), r),
    ensures
        ({
            let running = step is AwaitSocket || step is CreateTap || step is Configure || step
                is Forward;
            let kill = r@.index_of(BootUndo::KillProcess);
            &&& r@.contains(BootUndo::KillProcess) <==> running
            &&& r@.contains(BootUndo::RemoveRootfs) <==> running
            &&& r@.contains(BootUndo::RemoveSocket) <==> running && !(step is AwaitSocket)
            &&& r@.contains(BootUndo::DeleteTap) <==> (step is Configure || step is Forward)
            &&& r@.contains(BootUndo::RemoveCidata) <==> (step is Configure || step is Forward)
            &&& r@.contains(BootUndo::RemoveVolumes) <==> step is Configure
            &&& r@.contains(BootUndo::StopForwarders) <==> step is Forward
            &&& r@.contains(BootUndo::AskShutdown) <==> step is Forward
            &&& step is Forward ==> r@[0] == BootUndo::AskShutdown
            &&& running ==> kill < r@.index_of(BootUndo::RemoveRootfs)
            &&& step is Configure || step is Forward ==> r@.last() == BootUndo::DeleteTap
            &&& !running ==> r@.len() == 0
        }),
        r@.no_duplicates(),
{
    let u = r@;
    match step {
        BootStep::AwaitSocket => {
            assert(u[0] == BootUndo::KillProcess);
            assert(u[1] == BootUndo::RemoveRootfs);
        },
        BootStep::CreateTap => {
            assert(u[0] == BootUndo::KillProcess);
            assert(u[1] == BootUndo::RemoveSocket);
            assert(u[2] == BootUndo::RemoveRootfs);
        },
        BootStep::Configure => {
            assert(u[0] == BootUndo::KillProcess);
            assert(u[1] == BootUndo::RemoveSocket);
            assert(u[2] == BootUndo::RemoveRootfs);
            assert(u[3] == BootUndo::RemoveCidata);
            assert(u[4] == BootUndo::RemoveVolumes);
            assert(u[5] == BootUndo::DeleteTap);
        },
        BootStep::Forward(i) => {
            assert(u[0] == BootUndo::AskShutdown);
            assert(u[1] == BootUndo::KillProcess);
            assert(u[2] == BootUndo::RemoveSocket);
            assert(u[3] == BootUndo::RemoveRootfs);
            assert(u[4] == BootUndo::RemoveCidata);
            assert(u[5] == BootUndo::StopForwarders);
            assert(u[6] == BootUndo::DeleteTap);
        },
        _ => {},
    }
}

/// A missing image is the only failure of a boot that is no use retrying; the
/// error of a step that failed on something else carries the text behind it.
pub proof fn law_failed_boot_is_explained(
    lifecycle: &FirecrackerLifecycle,
    deployment: &Deployment,
    instance_id: &str,
    step: BootStep,
    detail: &str,
    r: RuntimeError,
)
    requires
        call_ensures(boot_error_for, (lifecycle, deployment, instance_id, step, detail), r),
    ensures
        r is ImageNotFound <==> step is CheckImage,
        r is VmStartFailed <==> (step is CheckKernel || step is MakeSocketDir || step is CopyRootfs
            || step is Spawn || step is AwaitSocket || step is Configure),
        step is MakeSocketDir || step is CopyRootfs || step is Spawn || step is Configure
            ==> detail@.is_suffix_of(r@->VmStartFailed_0),
        !(r is ImageNotFound) && !(r is VmStartFailed) ==> r@ == RuntimeErrorView::Other(detail@),
{
    if step is MakeSocketDir || step is CopyRootfs || step is Spawn || step is Configure {
        let text = r@->VmStartFailed_0;
        assert(text.subrange(text.len() - detail@.len(), text.len() as int) =~= detail@);
    }
}

/// A netmask has as many leading bits set as the prefix is long, and no other:
/// read as one number it lies exactly as far below two to the power of 32 as the
/// addresses that are left are many.
pub proof fn law_netmask_sets_the_leading_bits(prefix_len: u8, r: String) -> (m: (nat, nat, nat, nat))
    requires
        prefix_len <= 32,
        call_ensures(prefix_to_netmask, (prefix_len,), r),
    ensures
        m.0 < 256 && m.1 < 256 && m.2 < 256 && m.3 < 256,
        r@ == decimal(m.0) + "."@ + decimal(m.1) + "."@ + decimal(m.2) + "."@ + decimal(m.3),
        m.0 * 0x100_0000 + m.1 * 0x1_0000 + m.2 * 0x100 + m.3 + power(2, (32 - prefix_len) as nat)
            == 0x1_0000_0000,
{
    let p = prefix_len as int;
    lemma_powers_of_two();
    (mask_octet(p, 0), mask_octet(p, 1), mask_octet(p, 2), mask_octet(p, 3))
}

/// The powers of two up to the 32nd.
proof fn lemma_powers_of_two()
    ensures
        power(2, 0) == 0x1,
        power(2, 1) == 0x2,
        power(2, 2) == 0x4,
        power(2, 3) == 0x8,
        power(2, 4) == 0x10,
        power(2, 5) == 0x20,
        power(2, 6) == 0x40,
        power(2, 7) == 0x80,
        power(2, 8) == 0x100,
        power(2, 9) == 0x200,
        power(2, 10) == 0x400,
        power(2, 11) == 0x800,
        power(2, 12) == 0x1000,
        power(2, 13) == 0x2000,
        power(2, 14) == 0x4000,
        power(2, 15) == 0x8000,
        power(2, 16) == 0x10000,
        power(2, 17) == 0x20000,
        power(2, 18) == 0x40000,
        power(2, 19) == 0x80000,
        power(2, 20) == 0x100000,
        power(2, 21) == 0x200000,
        power(2, 22) == 0x400000,
        power(2, 23) == 0x800000,
        power(2, 24) == 0x1000000,
        power(2, 25) == 0x2000000,
        power(2, 26) == 0x4000000,
        power(2, 27) == 0x8000000,
        power(2, 28) == 0x10000000,
        power(2, 29) == 0x20000000,
        power(2, 30) == 0x40000000,
        power(2, 31) == 0x80000000,
        power(2, 32) == 0x100000000,
{
    reveal_with_fuel(power, 34);
}

/// A machine's devices are those of its instance: the interface and the address that
/// its id gives, the socket device with the context id that its id gives, at the
/// instance's path; and the VMM is told the instance's control socket.
pub proof fn law_devices_are_the_instances_own(
    l: &FirecrackerLifecycle,
    id: &str,
    net: InstanceNet,
    cid: u32,
    socket: String,
    vsock_file: String,
    iface: NetworkInterface,
    vsock: Vsock,
    args: Vec<String>,
)
    requires
        call_ensures(InstanceNet::for_instance, (id,), net),
        call_ensures(cid_for_instance, (id,), cid),
        call_ensures(FirecrackerLifecycle::socket_path, (l, id), socket),
        call_ensures(FirecrackerLifecycle::vsock_path, (l, id), vsock_file),
        call_ensures(network_interface, (id,), iface),
        call_ensures(vsock_device, (l, id), vsock),
        call_ensures(vmm_arguments, (l, id), args),
    ensures
        iface.host_dev_name@ == net.tap_name@,
        iface.guest_mac matches Some(mac) && mac@ == net.mac@,
        vsock.guest_cid == cid,
        vsock.uds_path@ == vsock_file@,
        args@.len() == 2 && args@[0]@ == "--api-sock"@ && args@[1]@ == socket@,
{
    let a = strs(args@);
    assert(a.len() == args@.len());
    assert(a[0] == args@[0]@ && a[1] == args@[1]@);
}

/// A machine that has booted stays so, and a configuration or a boot that failed
/// stays failed, whatever is reported then.
pub proof fn law_end_of_a_boot_is_final(
    plan: ConfigurePlan,
    step: ConfigureStep,
    ok: bool,
    r: ConfigureStep,
    ports: usize,
    stage: BootStep,
    after: BootStep,
)
    requires
        call_ensures(next_configure_step, (plan, step, ok), r),
        call_ensures(next_boot_step, (ports, stage, ok), after),
    ensures
        step is Booted ==> r is Booted,
        step is Failed ==> r is Failed,
        r is Booted ==> step is Booted || (step is Start && ok),
        stage is Started ==> after is Started,
        stage is Failed ==> after is Failed,
{
}

} // verus!
