//! What a container is run with, as the runtime below containerd reads it.
use vstd::prelude::*;
use crate::entries::{copy_strings, env_lines, plain_env};
use crate::models::{Deployment, ResolvedMount};
use crate::text::{cat2, strs};

verus! {

/// The type of a container's specification.
pub const RUNTIME_SPEC_TYPE_URL: &'static str = "types.containerd.io/opencontainers/runtime-spec/1/Spec";

/// The type of a process's specification.
pub const PROCESS_SPEC_TYPE_URL: &'static str = "types.containerd.io/opencontainers/runtime-spec/1/Process";

/// Where programs are looked for in a container.
pub const DEFAULT_PATH: &'static str = "PATH=/usr/local/sbin:/usr/local/bin:/usr/sbin:/usr/bin:/sbin:/bin";

/// A mount of a container.
#[derive(Debug)]
pub struct OciMount {
    pub destination: String,
    pub kind: String,
    pub source: String,
    pub options: Vec<String>,
}

/// An [`OciMount`] by its contents.
pub struct OciMountView {
    pub destination: Seq<char>,
    pub kind: Seq<char>,
    pub source: Seq<char>,
    pub options: Seq<Seq<char>>,
}

impl View for OciMount {
    type V = OciMountView;

    open spec fn view(&self) -> OciMountView {
        OciMountView {
            destination: self.destination@,
            kind: self.kind@,
            source: self.source@,
            options: strs(self.options@),
        }
    }
}

/// The contents of a list of mounts.
pub open spec fn mount_views(list: Seq<OciMount>) -> Seq<OciMountView> {
    list.map_values(|m: OciMount| m@)
}

/// A limit of a process.
#[derive(Clone, Copy, Debug, PartialEq, Eq, Structural)]
pub struct FileLimit {
    pub hard: u64,
    pub soft: u64,
}

/// What a process may do, by the set that holds it.
#[derive(Debug)]
pub struct Capabilities {
    pub bounding: Vec<String>,
    pub effective: Vec<String>,
    pub permitted: Vec<String>,
}

/// The process of a container.
#[derive(Debug)]
pub struct OciProcess {
    pub terminal: bool,
    pub uid: u32,
    pub gid: u32,
    /// The command; `None` leaves it out.
    pub args: Option<Vec<String>>,
    pub env: Vec<String>,
    pub cwd: String,
    pub capabilities: Capabilities,
    /// The limit on open files, where there is one.
    pub open_files: Option<FileLimit>,
    pub no_new_privileges: bool,
}

/// The specification of a container.
#[derive(Debug)]
pub struct OciSpec {
    pub oci_version: String,
    pub process: OciProcess,
    pub root_path: String,
    pub root_readonly: bool,
    pub hostname: String,
    pub mounts: Vec<OciMount>,
    pub namespaces: Vec<String>,
    pub masked_paths: Vec<String>,
    pub readonly_paths: Vec<String>,
}

/// A mount with its options.
pub open spec fn mount_view(
    destination: Seq<char>,
    kind: Seq<char>,
    source: Seq<char>,
    options: Seq<Seq<char>>,
) -> OciMountView {
    OciMountView { destination, kind, source, options }
}

/// The file systems that every container has.
pub open spec fn standard_mounts() -> Seq<OciMountView> {
    seq![
        mount_view("/proc"@, "proc"@, "proc"@, seq![]),
        mount_view(
            "/dev"@,
            "tmpfs"@,
            "tmpfs"@,
            seq!["nosuid"@, "strictatime"@, "mode=755"@, "size=65536k"@],
        ),
        mount_view(
            "/dev/pts"@,
            "devpts"@,
            "devpts"@,
            seq!["nosuid"@, "noexec"@, "newinstance"@, "ptmxmode=0666"@, "mode=0620"@, "gid=5"@],
        ),
        mount_view(
            "/dev/shm"@,
            "tmpfs"@,
            "shm"@,
            seq!["nosuid"@, "noexec"@, "nodev"@, "mode=1777"@, "size=65536k"@],
        ),
        mount_view(
            "/dev/mqueue"@,
            "mqueue"@,
            "mqueue"@,
            seq!["nosuid"@, "noexec"@, "nodev"@],
        ),
        mount_view("/sys"@, "sysfs"@, "sysfs"@, seq!["nosuid"@, "noexec"@, "nodev"@, "ro"@]),
        mount_view(
            "/sys/fs/cgroup"@,
            "cgroup"@,
            "cgroup"@,
            seq!["nosuid"@, "noexec"@, "nodev"@, "relatime"@, "ro"@],
        ),
    ]
}

/// A mount with its options.
fn make_mount(destination: &str, kind: &str, source: &str, options: Vec<String>) -> (r: OciMount)
    ensures
        r@ == mount_view(destination@, kind@, source@, strs(options@)),
{
    OciMount {
        destination: destination.to_owned(),
        kind: kind.to_owned(),
        source: source.to_owned(),
        options,
    }
}

/// A list of three strings.
fn list3(a: &str, b: &str, c: &str) -> (r: Vec<String>)
    ensures
        strs(r@) == seq![a@, b@, c@],
{
    let mut out: Vec<String> = Vec::new();
    out.push(a.to_owned());
    out.push(b.to_owned());
    out.push(c.to_owned());
    assert(strs(out@) =~= seq![a@, b@, c@]);
    out
}

/// A list of four strings.
fn list4(a: &str, b: &str, c: &str, d: &str) -> (r: Vec<String>)
    ensures
        strs(r@) == seq![a@, b@, c@, d@],
{
    let mut out = list3(a, b, c);
    let ghost before = strs(out@);
    out.push(d.to_owned());
    assert(strs(out@) =~= before.push(d@));
    assert(strs(out@) =~= seq![a@, b@, c@, d@]);
    out
}

/// A list of five strings.
fn list5(a: &str, b: &str, c: &str, d: &str, e: &str) -> (r: Vec<String>)
    ensures
        strs(r@) == seq![a@, b@, c@, d@, e@],
{
    let mut out = list4(a, b, c, d);
    let ghost before = strs(out@);
    out.push(e.to_owned());
    assert(strs(out@) =~= before.push(e@));
    assert(strs(out@) =~= seq![a@, b@, c@, d@, e@]);
    out
}

/// The file systems that every container has.
pub fn default_mounts() -> (r: Vec<OciMount>)
    ensures
        mount_views(r@) == standard_mounts(),
{
    let none: Vec<String> = Vec::new();
    assert(strs(none@) =~= seq![]);
    let mut pts = list5("nosuid", "noexec", "newinstance", "ptmxmode=0666", "mode=0620");
    let ghost five = strs(pts@);
    pts.push("gid=5".to_owned());
    assert(strs(pts@) =~= five.push("gid=5"@));
    assert(strs(pts@) =~= seq![
        "nosuid"@,
        "noexec"@,
        "newinstance"@,
        "ptmxmode=0666"@,
        "mode=0620"@,
        "gid=5"@,
    ]);
    let mut out: Vec<OciMount> = Vec::new();
    out.push(make_mount("/proc", "proc", "proc", none));
    out.push(
        make_mount(
            "/dev",
            "tmpfs",
            "tmpfs",
            list4("nosuid", "strictatime", "mode=755", "size=65536k"),
        ),
    );
    out.push(make_mount("/dev/pts", "devpts", "devpts", pts));
    out.push(
        make_mount(
            "/dev/shm",
            "tmpfs",
            "shm",
            list5("nosuid", "noexec", "nodev", "mode=1777", "size=65536k"),
        ),
    );
    out.push(
        make_mount("/dev/mqueue", "mqueue", "mqueue", list3("nosuid", "noexec", "nodev")),
    );
    out.push(make_mount("/sys", "sysfs", "sysfs", list4("nosuid", "noexec", "nodev", "ro")));
    out.push(
        make_mount(
            "/sys/fs/cgroup",
            "cgroup",
            "cgroup",
            list5("nosuid", "noexec", "nodev", "relatime", "ro"),
        ),
    );
    assert(mount_views(out@) =~= standard_mounts());
    out
}

/// A directory of the host in a container.
pub open spec fn bind_view(source: Seq<char>, destination: Seq<char>, read_only: bool) -> OciMountView {
    mount_view(
        destination,
        "bind"@,
        source,
        seq![
            "rbind"@,
            if read_only {
                "ro"@
            } else {
                "rw"@
            },
        ],
    )
}

/// A directory of the host in a container.
pub fn bind_mount(source: &str, destination: &str, read_only: bool) -> (r: OciMount)
    ensures
        r@ == bind_view(source@, destination@, read_only),
{
    let mut options: Vec<String> = Vec::new();
    options.push("rbind".to_owned());
    if read_only {
        options.push("ro".to_owned());
    } else {
        options.push("rw".to_owned());
    }
    assert(strs(options@) =~= seq![
        "rbind"@,
        if read_only {
            "ro"@
        } else {
            "rw"@
        },
    ]);
    make_mount(destination, "bind", source, options)
}

/// The mounts for the resolved volumes. Volumes that are kept by name have a
/// directory of their own; rendered files come separately.
pub open spec fn volume_mounts(resolved: Seq<ResolvedMount>) -> Seq<OciMountView>
    decreases resolved.len(),
{
    if resolved.len() == 0 {
        seq![]
    } else {
        let rest = volume_mounts(resolved.drop_last());
        match resolved.last() {
            ResolvedMount::Bind { source, destination, read_only } => rest.push(
                bind_view(source@, destination@, read_only),
            ),
            ResolvedMount::Named { name, destination, read_only, driver } => rest.push(
                bind_view("/var/lib/ring/volumes/"@ + name@, destination@, read_only),
            ),
            ResolvedMount::Content { content, destination } => rest,
        }
    }
}

/// The mounts for the rendered files, each read-only.
pub open spec fn file_mounts(files: Seq<(String, String)>) -> Seq<OciMountView> {
    files.map_values(|f: (String, String)| bind_view(f.0@, f.1@, true))
}

/// The mounts for the resolved volumes, and then those for the rendered files,
/// given as pairs of host path and destination.
pub fn spec_mounts_from_resolved(
    resolved_mounts: &Vec<ResolvedMount>,
    config_files: &Vec<(String, String)>,
) -> (r: Vec<OciMount>)
    ensures
        mount_views(r@) == volume_mounts(resolved_mounts@) + file_mounts(config_files@),
{
    let mut out: Vec<OciMount> = Vec::new();
    let mut i: usize = 0;
    assert(mount_views(out@) =~= volume_mounts(resolved_mounts@.take(0)));
    while i < resolved_mounts.len()
        invariant
            i <= resolved_mounts.len(),
            mount_views(out@) == volume_mounts(resolved_mounts@.take(i as int)),
        decreases resolved_mounts.len() - i,
    {
        assert(resolved_mounts@.take(i + 1).drop_last() =~= resolved_mounts@.take(i as int));
        let ghost before = out@;
        match &resolved_mounts[i] {
            ResolvedMount::Bind { source, destination, read_only } => {
                let m = bind_mount(source.as_str(), destination.as_str(), *read_only);
                out.push(m);
                assert(mount_views(out@) =~= mount_views(before).push(m@));
            },
            ResolvedMount::Named { name, destination, read_only, driver: _ } => {
                let source = cat2("/var/lib/ring/volumes/", name.as_str());
                let m = bind_mount(source.as_str(), destination.as_str(), *read_only);
                out.push(m);
                assert(mount_views(out@) =~= mount_views(before).push(m@));
            },
            ResolvedMount::Content { content: _, destination: _ } => {},
        }
        i += 1;
    }
    assert(resolved_mounts@.take(resolved_mounts.len() as int) =~= resolved_mounts@);
    let ghost volumes = mount_views(out@);
    let mut j: usize = 0;
    assert(volumes + file_mounts(config_files@.take(0)) =~= volumes);
    while j < config_files.len()
        invariant
            j <= config_files.len(),
            mount_views(out@) == volumes + file_mounts(config_files@.take(j as int)),
        decreases config_files.len() - j,
    {
        let ghost before = out@;
        let m = bind_mount(config_files[j].0.as_str(), config_files[j].1.as_str(), true);
        out.push(m);
        assert(mount_views(out@) =~= mount_views(before).push(m@));
        assert(file_mounts(config_files@.take(j + 1)) =~= file_mounts(
            config_files@.take(j as int),
        ).push(m@));
        assert(mount_views(out@) =~= volumes + file_mounts(config_files@.take(j + 1)));
        j += 1;
    }
    assert(config_files@.take(config_files.len() as int) =~= config_files@);
    out
}

/// The namespaces that a container has for itself. The network is among them,
/// so that an interface can be put into it.
pub open spec fn own_namespaces() -> Seq<Seq<char>> {
    seq!["pid"@, "ipc"@, "uts"@, "mount"@, "network"@]
}

/// The namespaces that a container has for itself.
pub fn default_namespaces() -> (r: Vec<String>)
    ensures
        strs(r@) == own_namespaces(),
{
    list5("pid", "ipc", "uts", "mount", "network")
}

/// What the process of a container may do.
pub open spec fn standard_capabilities() -> Seq<Seq<char>> {
    seq![
        "CAP_CHOWN"@,
        "CAP_DAC_OVERRIDE"@,
        "CAP_FSETID"@,
        "CAP_FOWNER"@,
        "CAP_MKNOD"@,
        "CAP_NET_RAW"@,
        "CAP_SETGID"@,
        "CAP_SETUID"@,
        "CAP_SETFCAP"@,
        "CAP_SETPCAP"@,
        "CAP_NET_BIND_SERVICE"@,
        "CAP_SYS_CHROOT"@,
        "CAP_KILL"@,
        "CAP_AUDIT_WRITE"@,
    ]
}

/// Whether each of the three sets holds what the process of a container may do.
pub open spec fn are_standard(c: Capabilities) -> bool {
    &&& strs(c.bounding@) == standard_capabilities()
    &&& strs(c.effective@) == standard_capabilities()
    &&& strs(c.permitted@) == standard_capabilities()
}

/// What the process of a container may do: the same in each set.
pub fn default_capabilities() -> (r: Capabilities)
    ensures
        are_standard(r),
{
    Capabilities {
        bounding: capability_list(),
        effective: capability_list(),
        permitted: capability_list(),
    }
}

/// What the process of a container may do, as a list.
fn capability_list() -> (r: Vec<String>)
    ensures
        strs(r@) == standard_capabilities(),
{
    let mut out: Vec<String> = Vec::new();
    out.push("CAP_CHOWN".to_owned());
    out.push("CAP_DAC_OVERRIDE".to_owned());
    out.push("CAP_FSETID".to_owned());
    out.push("CAP_FOWNER".to_owned());
    out.push("CAP_MKNOD".to_owned());
    out.push("CAP_NET_RAW".to_owned());
    out.push("CAP_SETGID".to_owned());
    out.push("CAP_SETUID".to_owned());
    out.push("CAP_SETFCAP".to_owned());
    out.push("CAP_SETPCAP".to_owned());
    out.push("CAP_NET_BIND_SERVICE".to_owned());
    out.push("CAP_SYS_CHROOT".to_owned());
    out.push("CAP_KILL".to_owned());
    out.push("CAP_AUDIT_WRITE".to_owned());
    assert(strs(out@) =~= standard_capabilities());
    out
}

/// The paths that a container does not see.
pub open spec fn hidden_paths() -> Seq<Seq<char>> {
    seq![
        "/proc/acpi"@,
        "/proc/asound"@,
        "/proc/kcore"@,
        "/proc/keys"@,
        "/proc/latency_stats"@,
        "/proc/timer_list"@,
        "/proc/timer_stats"@,
        "/proc/sched_debug"@,
        "/sys/firmware"@,
        "/proc/scsi"@,
    ]
}

/// The paths that a container does not see.
pub fn masked_paths() -> (r: Vec<String>)
    ensures
        strs(r@) == hidden_paths(),
{
    let mut out: Vec<String> = Vec::new();
    out.push("/proc/acpi".to_owned());
    out.push("/proc/asound".to_owned());
    out.push("/proc/kcore".to_owned());
    out.push("/proc/keys".to_owned());
    out.push("/proc/latency_stats".to_owned());
    out.push("/proc/timer_list".to_owned());
    out.push("/proc/timer_stats".to_owned());
    out.push("/proc/sched_debug".to_owned());
    out.push("/sys/firmware".to_owned());
    out.push("/proc/scsi".to_owned());
    assert(strs(out@) =~= hidden_paths());
    out
}

/// The paths that a container cannot change.
pub open spec fn fixed_paths() -> Seq<Seq<char>> {
    seq!["/proc/bus"@, "/proc/fs"@, "/proc/irq"@, "/proc/sys"@, "/proc/sysrq-trigger"@]
}

/// The paths that a container cannot change.
pub fn readonly_paths() -> (r: Vec<String>)
    ensures
        strs(r@) == fixed_paths(),
{
    list5("/proc/bus", "/proc/fs", "/proc/irq", "/proc/sys", "/proc/sysrq-trigger")
}

/// The command of a container: that of the deployment, or that of the image
/// where the deployment has none.
pub open spec fn command_of(d: &Deployment, image_args: Seq<String>) -> Seq<String> {
    if d.command.len() == 0 {
        image_args
    } else {
        d.command@
    }
}

/// The user and the group of a container; root where none is given.
pub open spec fn user_ids(d: &Deployment) -> (u32, u32) {
    match d.config {
        Some(c) => match c.user {
            Some(u) => (
                match u.id {
                    Some(n) => n,
                    None => 0,
                },
                match u.group {
                    Some(n) => n,
                    None => 0,
                },
            ),
            None => (0, 0),
        },
        None => (0, 0),
    }
}

/// The user and the group of a container.
fn user_and_group(deployment: &Deployment) -> (r: (u32, u32))
    ensures
        r == user_ids(deployment),
{
    match &deployment.config {
        Some(c) => match &c.user {
            Some(u) => {
                let uid: u32 = match u.id {
                    Some(n) => n,
                    None => 0,
                };
                let gid: u32 = match u.group {
                    Some(n) => n,
                    None => 0,
                };
                (uid, gid)
            },
            None => (0, 0),
        },
        None => (0, 0),
    }
}

/// Build the specification of a deployment's container. The command is left out
/// where neither the deployment nor the image has one.
pub fn build_spec_value(
    deployment: &Deployment,
    resolved_mounts: &Vec<ResolvedMount>,
    config_files: &Vec<(String, String)>,
    image_default_args: &Vec<String>,
) -> (r: OciSpec)
    ensures
        r.oci_version@ == "1.0.2-dev"@,
        !r.process.terminal,
        (r.process.uid, r.process.gid) == user_ids(deployment),
        match r.process.args {
            Some(args) => args@ == command_of(deployment, image_default_args@) && args.len() > 0,
            None => command_of(deployment, image_default_args@).len() == 0,
        },
        strs(r.process.env@) == seq![
            "PATH=/usr/local/sbin:/usr/local/bin:/usr/sbin:/usr/bin:/sbin:/bin"@,
        ] + env_lines(deployment.environment@),
        r.process.cwd@ == "/"@,
        are_standard(r.process.capabilities),
        r.process.open_files == Some(FileLimit { hard: 1024, soft: 1024 }),
        r.process.no_new_privileges,
        r.root_path@ == "rootfs"@,
        !r.root_readonly,
        r.hostname@ == deployment.name@,
        mount_views(r.mounts@) == standard_mounts() + (volume_mounts(resolved_mounts@)
            + file_mounts(config_files@)),
        strs(r.namespaces@) == own_namespaces(),
        strs(r.masked_paths@) == hidden_paths(),
        strs(r.readonly_paths@) == fixed_paths(),
{
    let args = if deployment.command.len() == 0 {
        copy_strings(image_default_args)
    } else {
        copy_strings(&deployment.command)
    };
    let mut env: Vec<String> = Vec::new();
    env.push(DEFAULT_PATH.to_owned());
    let mut plain = plain_env(&deployment.environment);
    let ghost lines = strs(plain@);
    env.append(&mut plain);
    assert(strs(env@) =~= seq![
        "PATH=/usr/local/sbin:/usr/local/bin:/usr/sbin:/usr/bin:/sbin:/bin"@,
    ] + lines);
    let (uid, gid) = user_and_group(deployment);
    let mut mounts = default_mounts();
    let mut more = spec_mounts_from_resolved(resolved_mounts, config_files);
    let ghost first = mount_views(mounts@);
    let ghost second = mount_views(more@);
    mounts.append(&mut more);
    assert(mount_views(mounts@) =~= first + second);
    OciSpec {
        oci_version: "1.0.2-dev".to_owned(),
        process: OciProcess {
            terminal: false,
            uid,
            gid,
            args: if args.len() == 0 {
                None
            } else {
                Some(args)
            },
            env,
            cwd: "/".to_owned(),
            capabilities: default_capabilities(),
            open_files: Some(FileLimit { hard: 1024, soft: 1024 }),
            no_new_privileges: true,
        },
        root_path: "rootfs".to_owned(),
        root_readonly: false,
        hostname: deployment.name.clone(),
        mounts,
        namespaces: default_namespaces(),
        masked_paths: masked_paths(),
        readonly_paths: readonly_paths(),
    }
}

/// Build the specification of a process that is run in a container as root.
pub fn build_exec_process_spec(args: Vec<String>) -> (r: OciProcess)
    ensures
        !r.terminal,
        r.uid == 0 && r.gid == 0,
        r.args == Some(args),
        strs(r.env@) == seq![
            "PATH=/usr/local/sbin:/usr/local/bin:/usr/sbin:/usr/bin:/sbin:/bin"@,
        ],
        r.cwd@ == "/"@,
        are_standard(r.capabilities),
        r.open_files is None,
        r.no_new_privileges,
{
    let mut env: Vec<String> = Vec::new();
    env.push(DEFAULT_PATH.to_owned());
    assert(strs(env@) =~= seq![
        "PATH=/usr/local/sbin:/usr/local/bin:/usr/sbin:/usr/bin:/sbin:/bin"@,
    ]);
    OciProcess {
        terminal: false,
        uid: 0,
        gid: 0,
        args: Some(args),
        env,
        cwd: "/".to_owned(),
        capabilities: default_capabilities(),
        open_files: None,
        no_new_privileges: true,
    }
}

// ---------------------------------------------------------------------------
// Laws
// ---------------------------------------------------------------------------

/// A container runs as the user and in the group that its deployment declares,
/// each by itself: one that is left out is root, whatever the other one is.
pub proof fn law_declared_user_runs_the_process(
    deployment: &Deployment,
    resolved_mounts: &Vec<ResolvedMount>,
    config_files: &Vec<(String, String)>,
    image_default_args: &Vec<String>,
    r: OciSpec,
)
    requires
        call_ensures(
            build_spec_value,
            (deployment, resolved_mounts, config_files, image_default_args),
            r,
        ),
    ensures
        deployment.config matches Some(c) ==> c.user matches Some(u) ==> u.id matches Some(n)
            ==> r.process.uid == n,
        deployment.config matches Some(c) ==> c.user matches Some(u) ==> u.group matches Some(n)
            ==> r.process.gid == n,
        r.process.uid != 0 ==> (deployment.config matches Some(c) && c.user matches Some(u)
            && u.id is Some),
        r.process.gid != 0 ==> (deployment.config matches Some(c) && c.user matches Some(u)
            && u.group is Some),
{
}

/// A container runs the command of its deployment, and that of its image exactly
/// where the deployment has none; the command is left out exactly where neither
/// has one. Its host name is the deployment's name.
pub proof fn law_own_command_wins(
    deployment: &Deployment,
    resolved_mounts: &Vec<ResolvedMount>,
    config_files: &Vec<(String, String)>,
    image_default_args: &Vec<String>,
    r: OciSpec,
)
    requires
        call_ensures(
            build_spec_value,
            (deployment, resolved_mounts, config_files, image_default_args),
            r,
        ),
    ensures
        deployment.command@.len() > 0 ==> (r.process.args matches Some(args) && args@
            == deployment.command@),
        deployment.command@.len() == 0 && image_default_args@.len() > 0 ==> (
        r.process.args matches Some(args) && args@ == image_default_args@),
        r.process.args is None <==> deployment.command@.len() == 0 && image_default_args@.len()
            == 0,
        r.hostname@ == deployment.name@,
        r.process.no_new_privileges,
        !r.process.terminal,
{
}

/// The environment of a container is the search path and then the deployment's
/// plain variables in their order.
pub proof fn law_environment_follows_the_path(
    deployment: &Deployment,
    resolved_mounts: &Vec<ResolvedMount>,
    config_files: &Vec<(String, String)>,
    image_default_args: &Vec<String>,
    r: OciSpec,
    plain: Vec<String>,
)
    requires
        call_ensures(
            build_spec_value,
            (deployment, resolved_mounts, config_files, image_default_args),
            r,
        ),
        call_ensures(plain_env, (&deployment.environment,), plain),
    ensures
        r.process.env@.len() == plain@.len() + 1,
        r.process.env@[0]@
            == "PATH=/usr/local/sbin:/usr/local/bin:/usr/sbin:/usr/bin:/sbin:/bin"@,
        forall|i: int| 0 <= i < plain@.len() ==> r.process.env@[i + 1]@ == (#[trigger] plain@[i])@,
{
    let env = strs(r.process.env@);
    assert(env.len() == r.process.env@.len());
    assert(strs(plain@).len() == plain@.len());
    assert(env[0] == r.process.env@[0]@);
    assert forall|i: int| 0 <= i < plain@.len() implies r.process.env@[i + 1]@ == (
    #[trigger] plain@[i])@ by {
        assert(env[i + 1] == r.process.env@[i + 1]@);
        assert(strs(plain@)[i] == plain@[i]@);
    }
}

/// A volume becomes a mount at its destination that can be written to exactly
/// where the volume is not read-only; a rendered file is always read-only. One
/// more volume adds its mount behind those of the other volumes, or nothing
/// where it is a rendered file.
pub proof fn law_volume_is_mounted_as_declared(
    volumes: &Vec<ResolvedMount>,
    more: &Vec<ResolvedMount>,
    last: ResolvedMount,
    no_files: &Vec<(String, String)>,
    before: Vec<OciMount>,
    after: Vec<OciMount>,
)
    requires
        more@ == volumes@.push(last),
        no_files@.len() == 0,
        call_ensures(spec_mounts_from_resolved, (volumes, no_files), before),
        call_ensures(spec_mounts_from_resolved, (more, no_files), after),
    ensures
        volumes@.len() == 0 ==> before@.len() == 0,
        last is Content ==> mount_views(after@) == mount_views(before@),
        !(last is Content) ==> {
            &&& after@.len() == before@.len() + 1
            &&& mount_views(after@).drop_last() == mount_views(before@)
            &&& after@.last()@.kind == "bind"@
            &&& after@.last()@.options.len() == 2
        },
        last matches ResolvedMount::Bind { source, destination, read_only } ==> {
            &&& after@.last()@.source == source@
            &&& after@.last()@.destination == destination@
            &&& after@.last()@.options[1] == "ro"@ <==> read_only
            &&& after@.last()@.options[1] == "rw"@ <==> !read_only
        },
        last matches ResolvedMount::Named { name, destination, read_only, driver } ==> {
            &&& name@.is_suffix_of(after@.last()@.source)
            &&& "/var/lib/ring/volumes/"@.is_prefix_of(after@.last()@.source)
            &&& after@.last()@.destination == destination@
            &&& after@.last()@.options[1] == "ro"@ <==> read_only
            &&& after@.last()@.options[1] == "rw"@ <==> !read_only
        },
{
    reveal_strlit("ro");
    reveal_strlit("rw");
    assert("ro"@[1] != "rw"@[1]);
    assert(more@.drop_last() =~= volumes@);
    let none = file_mounts(no_files@);
    assert(none.len() == 0);
    let a = volume_mounts(volumes@);
    let b = volume_mounts(more@);
    assert(a + none =~= a);
    assert(b + none =~= b);
    assert(mount_views(before@).len() == before@.len());
    assert(mount_views(after@).len() == after@.len());
    if !(last is Content) {
        assert(b.drop_last() =~= a);
        assert(mount_views(after@).last() == after@.last()@);
    }
    if let ResolvedMount::Named { name, destination, read_only, driver } = last {
        let source = after@.last()@.source;
        let dir = "/var/lib/ring/volumes/"@;
        assert(source.subrange(source.len() - name@.len(), source.len() as int) =~= name@);
        assert(source.subrange(0, dir.len() as int) =~= dir);
    }
}

/// The rendered files are mounted behind the volumes, each read-only, from its
/// file on the host to its destination.
pub proof fn law_rendered_files_are_read_only(
    volumes: &Vec<ResolvedMount>,
    files: &Vec<(String, String)>,
    no_files: &Vec<(String, String)>,
    plain: Vec<OciMount>,
    r: Vec<OciMount>,
    i: int,
)
    requires
        no_files@.len() == 0,
        0 <= i < files@.len(),
        call_ensures(spec_mounts_from_resolved, (volumes, no_files), plain),
        call_ensures(spec_mounts_from_resolved, (volumes, files), r),
    ensures
        r@.len() == plain@.len() + files@.len(),
        mount_views(r@).take(plain@.len() as int) == mount_views(plain@),
        r@[plain@.len() + i]@.source == files@[i].0@,
        r@[plain@.len() + i]@.destination == files@[i].1@,
        r@[plain@.len() + i]@.options.contains("ro"@),
        !r@[plain@.len() + i]@.options.contains("rw"@),
{
    reveal_strlit("ro");
    reveal_strlit("rw");
    reveal_strlit("rbind");
    assert("ro"@[1] != "rw"@[1]);
    assert("rbind"@.len() != "rw"@.len());
    let none = file_mounts(no_files@);
    let a = volume_mounts(volumes@);
    assert(a + none =~= a);
    let b = a + file_mounts(files@);
    assert(mount_views(plain@).len() == plain@.len());
    assert(mount_views(r@).len() == r@.len());
    assert(b.take(a.len() as int) =~= a);
    let at = plain@.len() + i;
    assert(mount_views(r@)[at] == r@[at]@);
    assert(b[at] == file_mounts(files@)[i]);
    assert(r@[at]@.options[1] == "ro"@);
}

/// The mounts of a container are those that every container has, and then those
/// of its volumes and rendered files.
pub proof fn law_own_mounts_follow_the_standard_ones(
    deployment: &Deployment,
    resolved_mounts: &Vec<ResolvedMount>,
    config_files: &Vec<(String, String)>,
    image_default_args: &Vec<String>,
    r: OciSpec,
    standard: Vec<OciMount>,
    own: Vec<OciMount>,
)
    requires
        call_ensures(
            build_spec_value,
            (deployment, resolved_mounts, config_files, image_default_args),
            r,
        ),
        call_ensures(default_mounts, (), standard),
        call_ensures(spec_mounts_from_resolved, (resolved_mounts, config_files), own),
    ensures
        mount_views(r.mounts@) == mount_views(standard@) + mount_views(own@),
        strs(r.namespaces@).contains("network"@),
        strs(r.namespaces@).contains("pid"@),
        strs(r.namespaces@).contains("mount"@),
{
    assert(strs(r.namespaces@)[4] == "network"@);
    assert(strs(r.namespaces@)[0] == "pid"@);
    assert(strs(r.namespaces@)[3] == "mount"@);
}

/// A bind mount joins its two paths, is bound with all below it, and can be written
/// exactly where it is not read-only.
pub proof fn law_bind_joins_two_paths(source: &str, destination: &str, read_only: bool, r: OciMount)
    requires
        call_ensures(bind_mount, (source, destination, read_only), r),
    ensures
        r.source@ == source@,
        r.destination@ == destination@,
        r.kind@ == "bind"@,
        r.options@.len() == 2 && r.options@[0]@ == "rbind"@,
        r.options@[1]@ == "ro"@ <==> read_only,
        r.options@[1]@ == "rw"@ <==> !read_only,
{
    reveal_strlit("ro");
    reveal_strlit("rw");
    assert("ro"@[1] == 'o' && "rw"@[1] == 'w');
    let o = strs(r.options@);
    assert(r@.options == o);
    assert(o.len() == r.options@.len());
    assert(o[0] == r.options@[0]@ && o[1] == r.options@[1]@);
}

/// A command in a container runs as its root, with the arguments that it is given,
/// without a terminal and without a way to gain privileges; what it may do is the
/// same in each set.
pub proof fn law_command_gains_nothing(args: Vec<String>, r: OciProcess)
    requires
        call_ensures(build_exec_process_spec, (args,), r),
    ensures
        r.args == Some(args),
        r.uid == 0 && r.gid == 0,
        !r.terminal && r.no_new_privileges,
        strs(r.capabilities.bounding@) == strs(r.capabilities.effective@),
        strs(r.capabilities.bounding@) == strs(r.capabilities.permitted@),
        r.capabilities.bounding@.len() == 14,
        r.env@.len() == 1,
{
    assert(strs(r.capabilities.bounding@).len() == r.capabilities.bounding@.len());
    assert(standard_capabilities().len() == 14);
    assert(strs(r.env@).len() == r.env@.len());
}

/// What a process may do, and nothing more; which namespaces a container has for
/// itself; which paths it does not see, and which it cannot change.
pub proof fn law_container_is_confined(
    c: Capabilities,
    namespaces: Vec<String>,
    hidden: Vec<String>,
    fixed: Vec<String>,
    name: Seq<char>,
)
    requires
        call_ensures(default_capabilities, (), c),
        call_ensures(default_namespaces, (), namespaces),
        call_ensures(masked_paths, (), hidden),
        call_ensures(readonly_paths, (), fixed),
    ensures
        strs(c.bounding@).contains(name) <==> {
            ||| name == "CAP_CHOWN"@ || name == "CAP_DAC_OVERRIDE"@ || name == "CAP_FSETID"@
            ||| name == "CAP_FOWNER"@ || name == "CAP_MKNOD"@ || name == "CAP_NET_RAW"@
            ||| name == "CAP_SETGID"@ || name == "CAP_SETUID"@ || name == "CAP_SETFCAP"@
            ||| name == "CAP_SETPCAP"@ || name == "CAP_NET_BIND_SERVICE"@
            ||| name == "CAP_SYS_CHROOT"@ || name == "CAP_KILL"@ || name == "CAP_AUDIT_WRITE"@
        },
        strs(c.effective@) == strs(c.bounding@) && strs(c.permitted@) == strs(c.bounding@),
        strs(namespaces@).contains(name) <==> name == "pid"@ || name == "ipc"@ || name == "uts"@
            || name == "mount"@ || name == "network"@,
        strs(fixed@).contains(name) <==> name == "/proc/bus"@ || name == "/proc/fs"@ || name
            == "/proc/irq"@ || name == "/proc/sys"@ || name == "/proc/sysrq-trigger"@,
        strs(hidden@).contains(name) <==> {
            ||| name == "/proc/acpi"@ || name == "/proc/asound"@ || name == "/proc/kcore"@
            ||| name == "/proc/keys"@ || name == "/proc/latency_stats"@
            ||| name == "/proc/timer_list"@ || name == "/proc/timer_stats"@
            ||| name == "/proc/sched_debug"@ || name == "/sys/firmware"@ || name == "/proc/scsi"@
        },
{
    let a = strs(c.bounding@);
    assert(a.len() == 14);
    assert(a[0] == "CAP_CHOWN"@ && a[1] == "CAP_DAC_OVERRIDE"@ && a[2] == "CAP_FSETID"@ && a[3]
        == "CAP_FOWNER"@ && a[4] == "CAP_MKNOD"@ && a[5] == "CAP_NET_RAW"@ && a[6]
        == "CAP_SETGID"@ && a[7] == "CAP_SETUID"@ && a[8] == "CAP_SETFCAP"@ && a[9]
        == "CAP_SETPCAP"@ && a[10] == "CAP_NET_BIND_SERVICE"@ && a[11] == "CAP_SYS_CHROOT"@
        && a[12] == "CAP_KILL"@ && a[13] == "CAP_AUDIT_WRITE"@);
    let n = strs(namespaces@);
    assert(n.len() == 5 && n[0] == "pid"@ && n[1] == "ipc"@ && n[2] == "uts"@ && n[3] == "mount"@
        && n[4] == "network"@);
    let f = strs(fixed@);
    assert(f.len() == 5 && f[0] == "/proc/bus"@ && f[1] == "/proc/fs"@ && f[2] == "/proc/irq"@
        && f[3] == "/proc/sys"@ && f[4] == "/proc/sysrq-trigger"@);
    let h = strs(hidden@);
    assert(h.len() == 10 && h[0] == "/proc/acpi"@ && h[1] == "/proc/asound"@ && h[2]
        == "/proc/kcore"@ && h[3] == "/proc/keys"@ && h[4] == "/proc/latency_stats"@ && h[5]
        == "/proc/timer_list"@ && h[6] == "/proc/timer_stats"@ && h[7] == "/proc/sched_debug"@
        && h[8] == "/sys/firmware"@ && h[9] == "/proc/scsi"@);
}

/// The file systems that every container has: each at its place and of its kind;
/// none but the first carries programs that change the user, and those of the
/// system cannot be changed.
pub proof fn law_standard_file_systems_are_safe(r: Vec<OciMount>, i: int)
    requires
        call_ensures(default_mounts, (), r),
        0 <= i < r@.len(),
    ensures
        r@.len() == 7,
        r@[0].destination@ == "/proc"@ && r@[0].kind@ == "proc"@,
        r@[1].destination@ == "/dev"@ && r@[1].kind@ == "tmpfs"@,
        r@[2].destination@ == "/dev/pts"@ && r@[2].kind@ == "devpts"@,
        r@[3].destination@ == "/dev/shm"@ && r@[3].kind@ == "tmpfs"@,
        r@[4].destination@ == "/dev/mqueue"@ && r@[4].kind@ == "mqueue"@,
        r@[5].destination@ == "/sys"@ && r@[5].kind@ == "sysfs"@,
        r@[6].destination@ == "/sys/fs/cgroup"@ && r@[6].kind@ == "cgroup"@,
        i > 0 ==> strs(r@[i].options@).contains("nosuid"@),
        i > 1 ==> strs(r@[i].options@).contains("noexec"@),
        i > 2 ==> strs(r@[i].options@).contains("nodev"@),
        i > 4 ==> strs(r@[i].options@).contains("ro"@),
{
    let v = mount_views(r@);
    assert(v.len() == r@.len());
    assert(v[0] == r@[0]@ && v[1] == r@[1]@ && v[2] == r@[2]@ && v[3] == r@[3]@ && v[4] == r@[4]@
        && v[5] == r@[5]@ && v[6] == r@[6]@);
    let o = strs(r@[i].options@);
    assert(o == v[i].options);
    if i > 0 {
        assert(o[0] == "nosuid"@);
    }
    if i > 1 {
        assert(o[1] == "noexec"@);
    }
    if i > 2 {
        assert(o[2] == "nodev"@);
    }
    if i == 5 {
        assert(o[3] == "ro"@);
    }
    if i == 6 {
        assert(o[4] == "ro"@);
    }
}

} // verus!
