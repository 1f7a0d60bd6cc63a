//! The runtime's settings, where the files of its instances lie, and which
//! instances there are: an instance is known by its control socket on disk, so
//! it is found again after a restart.
use vstd::prelude::*;
use crate::cloud_hypervisor::lifecycle::{or_text, text_or};
use crate::entries::{contains_text, lemma_contains_pushed};
use crate::models::Deployment;
use crate::paths::{join_path, joined_path};
use crate::text::{begins, cat2, cat3, cat4, cat6, contains, decimal, decimal_u64, has, occurs_at, strip_end, strs, without_suffix};

verus! {

/// Settings of the runtime, ready to use.
#[derive(Debug)]
pub struct FirecrackerRuntimeConfig {
    /// The VMM's program.
    pub binary_path: String,
    /// The kernel that the machines boot.
    pub kernel_path: String,
    /// The directory of the sockets and the instances' files.
    pub socket_dir: String,
    /// The kernel's command line.
    pub boot_args: String,
    /// The size past which a console log is rotated; zero switches that off.
    pub max_console_log_bytes: u64,
    pub max_console_log_backups: u32,
}

/// Settings as the operator writes them.
#[derive(Debug)]
pub struct FirecrackerConfig {
    pub enabled: bool,
    pub binary_path: Option<String>,
    pub kernel_path: Option<String>,
    pub socket_dir: Option<String>,
    pub boot_args: Option<String>,
    pub max_console_log_bytes: Option<u64>,
    pub max_console_log_backups: Option<u32>,
}

/// Where a program is looked for.
#[derive(Clone, Copy, Debug, PartialEq, Eq, Structural)]
pub enum BinaryLookup {
    /// At its path.
    AtPath,
    /// In the directories of the search path.
    OnSearchPath,
}

impl FirecrackerRuntimeConfig {
    /// The settings that hold where the operator gives none, below the
    /// directory `base_dir`. The console is the serial line, so that it can be
    /// logged.
    pub fn defaults(base_dir: &str) -> (r: Self)
        ensures
            r.binary_path@ == "firecracker"@,
            r.kernel_path@ == base_dir@ + "/firecracker/vmlinux"@,
            r.socket_dir@ == base_dir@ + "/firecracker/sockets"@,
            r.boot_args@ == "console=ttyS0 reboot=k panic=1 pci=off"@,
            r.max_console_log_bytes == 10_485_760,
            r.max_console_log_backups == 3,
    {
        FirecrackerRuntimeConfig {
            binary_path: "firecracker".to_owned(),
            kernel_path: cat2(base_dir, "/firecracker/vmlinux"),
            socket_dir: cat2(base_dir, "/firecracker/sockets"),
            boot_args: "console=ttyS0 reboot=k panic=1 pci=off".to_owned(),
            max_console_log_bytes: 10_485_760,
            max_console_log_backups: 3,
        }
    }

    /// The operator's settings, with the defaults where one is not given.
    pub fn from_user_config(user: &FirecrackerConfig, base_dir: &str) -> (r: Self)
        ensures
            r.binary_path@ == or_text(user.binary_path, "firecracker"@),
            r.kernel_path@ == or_text(user.kernel_path, base_dir@ + "/firecracker/vmlinux"@),
            r.socket_dir@ == or_text(user.socket_dir, base_dir@ + "/firecracker/sockets"@),
            r.boot_args@ == or_text(user.boot_args, "console=ttyS0 reboot=k panic=1 pci=off"@),
            r.max_console_log_bytes == match user.max_console_log_bytes {
                Some(n) => n,
                None => 10_485_760,
            },
            r.max_console_log_backups == match user.max_console_log_backups {
                Some(n) => n,
                None => 3,
            },
    {
        let d = FirecrackerRuntimeConfig::defaults(base_dir);
        FirecrackerRuntimeConfig {
            binary_path: text_or(&user.binary_path, d.binary_path),
            kernel_path: text_or(&user.kernel_path, d.kernel_path),
            socket_dir: text_or(&user.socket_dir, d.socket_dir),
            boot_args: text_or(&user.boot_args, d.boot_args),
            max_console_log_bytes: match user.max_console_log_bytes {
                Some(n) => n,
                None => d.max_console_log_bytes,
            },
            max_console_log_backups: match user.max_console_log_backups {
                Some(n) => n,
                None => d.max_console_log_backups,
            },
        }
    }

    /// Where the VMM's program is looked for: at its path where it has a slash,
    /// else on the search path.
    pub fn binary_lookup(&self) -> (r: BinaryLookup)
        ensures
            r == if contains(self.binary_path@, "/"@) {
                BinaryLookup::AtPath
            } else {
                BinaryLookup::OnSearchPath
            },
    {
        if has(self.binary_path.as_str(), "/") {
            BinaryLookup::AtPath
        } else {
            BinaryLookup::OnSearchPath
        }
    }

    /// Whether the VMM's program is there, given which of the places where it
    /// is looked for hold it: the path itself, or the directories of the search
    /// path.
    pub fn is_available(&self, at_path: bool, on_search_path: &Vec<bool>) -> (r: bool)
        ensures
            r == if contains(self.binary_path@, "/"@) {
                at_path
            } else {
                on_search_path@.contains(true)
            },
    {
        if has(self.binary_path.as_str(), "/") {
            return at_path;
        }
        let mut i: usize = 0;
        while i < on_search_path.len()
            invariant
                i <= on_search_path.len(),
                !contains(self.binary_path@, "/"@),
                forall|j: int| 0 <= j < i ==> !on_search_path@[j],
            decreases on_search_path.len() - i,
        {
            if on_search_path[i] {
                assert(on_search_path@[i as int] == true);
                return true;
            }
            i += 1;
        }
        false
    }
}

/// The runtime.
#[derive(Debug)]
pub struct FirecrackerLifecycle {
    pub config: FirecrackerRuntimeConfig,
}

/// The path of an instance's file: the directory, the instance's id and a
/// suffix.
pub open spec fn machine_file(dir: Seq<char>, id: Seq<char>, suffix: Seq<char>) -> Seq<char> {
    dir + "/"@ + id + suffix
}

/// The image of an instance's volume `idx`.
pub open spec fn volume_file(dir: Seq<char>, id: Seq<char>, idx: nat) -> Seq<char> {
    dir + "/"@ + id + ".vol"@ + decimal(idx) + ".ext4"@
}

/// The image of a volume that is kept by name.
pub open spec fn named_volume_file(dir: Seq<char>, namespace: Seq<char>, name: Seq<char>) -> Seq<
    char,
> {
    joined_path(joined_path(joined_path(dir, "volumes"@), namespace), name + ".ext4"@)
}

impl FirecrackerLifecycle {
    /// The runtime with these settings.
    pub fn new(config: FirecrackerRuntimeConfig) -> (r: Self)
        ensures
            r.config == config,
    {
        FirecrackerLifecycle { config }
    }

    /// The control socket of an instance.
    pub fn socket_path(&self, instance_id: &str) -> (r: String)
        ensures
            r@ == machine_file(self.config.socket_dir@, instance_id@, ".sock"@),
    {
        cat4(self.config.socket_dir.as_str(), "/", instance_id, ".sock")
    }

    /// The disk of an instance.
    pub fn rootfs_path(&self, instance_id: &str) -> (r: String)
        ensures
            r@ == machine_file(self.config.socket_dir@, instance_id@, ".ext4"@),
    {
        cat4(self.config.socket_dir.as_str(), "/", instance_id, ".ext4")
    }

    /// The console log of an instance.
    pub fn console_log_path(&self, instance_id: &str) -> (r: String)
        ensures
            r@ == machine_file(self.config.socket_dir@, instance_id@, ".console.log"@),
    {
        cat4(self.config.socket_dir.as_str(), "/", instance_id, ".console.log")
    }

    /// The image of a volume that goes with the instance.
    pub fn ephemeral_volume_path(&self, instance_id: &str, idx: usize) -> (r: String)
        ensures
            r@ == volume_file(self.config.socket_dir@, instance_id@, idx as nat),
    {
        let number = decimal_u64(idx as u64);
        cat6(
            self.config.socket_dir.as_str(),
            "/",
            instance_id,
            ".vol",
            number.as_str(),
            ".ext4",
        )
    }

    /// The image of a volume that is kept by name, across instances.
    pub fn named_volume_path(&self, namespace: &str, name: &str) -> (r: String)
        ensures
            r@ == named_volume_file(self.config.socket_dir@, namespace@, name@),
    {
        let volumes = join_path(self.config.socket_dir.as_str(), "volumes");
        let dir = join_path(volumes.as_str(), namespace);
        let file = cat2(name, ".ext4");
        join_path(dir.as_str(), file.as_str())
    }

    /// The image with what an instance learns at its first boot.
    pub fn cidata_path(&self, instance_id: &str) -> (r: String)
        ensures
            r@ == machine_file(self.config.socket_dir@, instance_id@, ".cidata.iso"@),
    {
        cat4(self.config.socket_dir.as_str(), "/", instance_id, ".cidata.iso")
    }

    /// The host's end of an instance's socket device.
    pub fn vsock_path(&self, instance_id: &str) -> (r: String)
        ensures
            r@ == machine_file(self.config.socket_dir@, instance_id@, ".vsock"@),
    {
        cat4(self.config.socket_dir.as_str(), "/", instance_id, ".vsock")
    }

    /// The id of a new instance, given its random suffix.
    pub fn new_instance_id(deployment_id: &str, suffix: &str) -> (r: String)
        ensures
            r@ == deployment_id@ + "-"@ + suffix@,
    {
        cat3(deployment_id, "-", suffix)
    }
}

// ---------------------------------------------------------------------------
// Instances on disk
// ---------------------------------------------------------------------------

/// The instances whose control sockets are among these files, in their order:
/// those whose ids begin with `prefix`.
pub open spec fn socket_ids(names: Seq<Seq<char>>, prefix: Seq<char>) -> Seq<Seq<char>>
    decreases names.len(),
{
    if names.len() == 0 {
        seq![]
    } else {
        let rest = socket_ids(names.drop_last(), prefix);
        match without_suffix(names.last(), ".sock"@) {
            Some(id) => if prefix.is_prefix_of(id) {
                rest.push(id)
            } else {
                rest
            },
            None => rest,
        }
    }
}

/// The instances whose control sockets are among these files.
fn ids_with_prefix(names: &Vec<String>, prefix: &str) -> (r: Vec<String>)
    ensures
        strs(r@) == socket_ids(strs(names@), prefix@),
{
    let mut out: Vec<String> = Vec::new();
    let mut i: usize = 0;
    let ghost all = strs(names@);
    assert(strs(out@) =~= socket_ids(all.take(0), prefix@));
    while i < names.len()
        invariant
            i <= names.len(),
            all == strs(names@),
            strs(out@) == socket_ids(all.take(i as int), prefix@),
        decreases names.len() - i,
    {
        assert(all.take(i + 1).drop_last() =~= all.take(i as int));
        assert(all.take(i + 1).last() == names@[i as int]@);
        let ghost before = out@;
        if let Some(id) = strip_end(names[i].as_str(), ".sock") {
            if begins(id.as_str(), prefix) {
                out.push(id);
                assert(strs(out@) =~= strs(before).push(id@));
            }
        }
        i += 1;
    }
    assert(all.take(all.len() as int) =~= all);
    out
}

/// The instances of a deployment, given the files of the socket directory.
pub fn scan_instances(names: &Vec<String>, deployment_id: &str) -> (r: Vec<String>)
    ensures
        strs(r@) == socket_ids(strs(names@), deployment_id@ + "-"@),
{
    let prefix = cat2(deployment_id, "-");
    ids_with_prefix(names, prefix.as_str())
}

/// The instances of all deployments, given the files of the socket directory.
/// Interface names are shared by all of them.
pub fn all_instances(names: &Vec<String>) -> (r: Vec<String>)
    ensures
        strs(r@) == socket_ids(strs(names@), Seq::empty()),
{
    let empty = String::new();
    ids_with_prefix(names, empty.as_str())
}

/// The texts of a list that are not in another, in their order.
pub open spec fn not_among(list: Seq<Seq<char>>, known: Seq<Seq<char>>) -> Seq<Seq<char>>
    decreases list.len(),
{
    if list.len() == 0 {
        seq![]
    } else if known.contains(list.last()) {
        not_among(list.drop_last(), known)
    } else {
        not_among(list.drop_last(), known).push(list.last())
    }
}

/// The texts of a list that are not in another, in their order.
fn keep_unknown(list: &Vec<String>, known: &Vec<String>) -> (r: Vec<String>)
    ensures
        strs(r@) == not_among(strs(list@), strs(known@)),
{
    let mut out: Vec<String> = Vec::new();
    let mut i: usize = 0;
    let ghost all = strs(list@);
    assert(strs(out@) =~= not_among(all.take(0), strs(known@)));
    while i < list.len()
        invariant
            i <= list.len(),
            all == strs(list@),
            strs(out@) == not_among(all.take(i as int), strs(known@)),
        decreases list.len() - i,
    {
        assert(all.take(i + 1).drop_last() =~= all.take(i as int));
        assert(all.take(i + 1).last() == list@[i as int]@);
        let ghost before = out@;
        if !contains_text(known, list[i].as_str()) {
            out.push(list[i].clone());
            assert(strs(out@) =~= strs(before).push(list@[i as int]@));
        }
        i += 1;
    }
    assert(all.take(all.len() as int) =~= all);
    out
}

/// The instances of a deployment that are on disk but whose processes are not
/// known: those that were started before a restart.
pub fn orphan_instances(names: &Vec<String>, deployment_id: &str, known: &Vec<String>) -> (r: Vec<
    String,
>)
    ensures
        strs(r@) == not_among(
            socket_ids(strs(names@), deployment_id@ + "-"@),
            strs(known@),
        ),
{
    let found = scan_instances(names, deployment_id);
    keep_unknown(&found, known)
}

/// The instances whose networking is taken up again after a restart: those that
/// are on disk, whose processes are not known and whose ports are not forwarded
/// yet. Without published ports there is nothing to take up.
pub fn instances_to_readopt(
    deployment: &Deployment,
    names: &Vec<String>,
    known: &Vec<String>,
    forwarded: &Vec<String>,
) -> (r: Vec<String>)
    ensures
        strs(r@) == if deployment.ports.len() == 0 {
            Seq::empty()
        } else {
            not_among(
                not_among(socket_ids(strs(names@), deployment.id@ + "-"@), strs(known@)),
                strs(forwarded@),
            )
        },
{
    if deployment.ports.len() == 0 {
        let none: Vec<String> = Vec::new();
        assert(strs(none@) =~= Seq::empty());
        return none;
    }
    let orphans = orphan_instances(names, deployment.id.as_str(), known);
    keep_unknown(&orphans, forwarded)
}

/// Every instance of a deployment is among the instances of all deployments.
pub proof fn law_all_instances_cover_each_deployment(
    names: Seq<Seq<char>>,
    prefix: Seq<char>,
    id: Seq<char>,
)
    ensures
        socket_ids(names, prefix).contains(id) ==> socket_ids(names, Seq::empty()).contains(id),
    decreases names.len(),
{
    if names.len() > 0 {
        let init = names.drop_last();
        law_all_instances_cover_each_deployment(init, prefix, id);
        if let Some(last) = without_suffix(names.last(), ".sock"@) {
            assert(Seq::<char>::empty().is_prefix_of(last)) by {
                assert(last.subrange(0, 0) =~= Seq::<char>::empty());
            }
            lemma_contains_pushed(socket_ids(init, Seq::empty()), last, id);
            if prefix.is_prefix_of(last) {
                lemma_contains_pushed(socket_ids(init, prefix), last, id);
            }
        }
    }
}

/// A setting that the operator gives is used as it is given, and each of the
/// others has its default.
pub proof fn law_given_settings_win(
    user: &FirecrackerConfig,
    base_dir: &str,
    d: FirecrackerRuntimeConfig,
    r: FirecrackerRuntimeConfig,
)
    requires
        call_ensures(FirecrackerRuntimeConfig::defaults, (base_dir,), d),
        call_ensures(FirecrackerRuntimeConfig::from_user_config, (user, base_dir), r),
    ensures
        user.binary_path matches Some(s) ==> r.binary_path@ == s@,
        user.binary_path is None ==> r.binary_path@ == d.binary_path@,
        user.kernel_path matches Some(s) ==> r.kernel_path@ == s@,
        user.kernel_path is None ==> r.kernel_path@ == d.kernel_path@,
        user.socket_dir matches Some(s) ==> r.socket_dir@ == s@,
        user.socket_dir is None ==> r.socket_dir@ == d.socket_dir@,
        user.boot_args matches Some(s) ==> r.boot_args@ == s@,
        user.boot_args is None ==> r.boot_args@ == d.boot_args@,
        user.max_console_log_bytes matches Some(n) ==> r.max_console_log_bytes == n,
        user.max_console_log_bytes is None ==> r.max_console_log_bytes == d.max_console_log_bytes,
        user.max_console_log_backups matches Some(n) ==> r.max_console_log_backups == n,
        user.max_console_log_backups is None ==> r.max_console_log_backups
            == d.max_console_log_backups,
        d.max_console_log_bytes == 10 * 1024 * 1024,
        d.max_console_log_backups == 3,
{
}

/// A program with a slash in its name is there exactly where its path is; any
/// other one exactly where some directory of the search path holds it. It is
/// looked for in the same place.
pub proof fn law_program_is_looked_for(
    config: &FirecrackerRuntimeConfig,
    at_path: bool,
    on_search_path: &Vec<bool>,
    lookup: BinaryLookup,
    r: bool,
)
    requires
        call_ensures(FirecrackerRuntimeConfig::binary_lookup, (config,), lookup),
        call_ensures(
            FirecrackerRuntimeConfig::is_available,
            (config, at_path, on_search_path),
            r,
        ),
    ensures
        lookup == BinaryLookup::AtPath <==> config.binary_path@.contains('/'),
        lookup == BinaryLookup::AtPath ==> r == at_path,
        lookup == BinaryLookup::OnSearchPath ==> (r <==> exists|i: int|
            0 <= i < on_search_path@.len() && #[trigger] on_search_path@[i]),
{
    reveal_strlit("/");
    let path = config.binary_path@;
    if contains(path, "/"@) {
        let i = choose|i: int| #[trigger] occurs_at(path, "/"@, i);
        assert(path.subrange(i, i + 1)[0] == path[i]);
        assert("/"@[0] == '/');
    }
    if path.contains('/') {
        let i = choose|i: int| 0 <= i < path.len() && path[i] == '/';
        assert(path.subrange(i, i + 1) =~= "/"@);
        assert(occurs_at(path, "/"@, i));
    }
    if on_search_path@.contains(true) {
        let i = choose|i: int| 0 <= i < on_search_path@.len() && on_search_path@[i] == true;
        assert(on_search_path@[i]);
    }
}

/// A scan goes through the files in their order: one more file adds an instance
/// exactly where it is a control socket whose name begins with the deployment's
/// id and a dash. A scan for all deployments takes every control socket.
pub proof fn law_scan_takes_the_control_sockets(
    names: &Vec<String>,
    more: &Vec<String>,
    last: String,
    deployment_id: &str,
    before: Vec<String>,
    after: Vec<String>,
    all_before: Vec<String>,
    all_after: Vec<String>,
)
    requires
        more@ == names@.push(last),
        call_ensures(scan_instances, (names, deployment_id), before),
        call_ensures(scan_instances, (more, deployment_id), after),
        call_ensures(all_instances, (names,), all_before),
        call_ensures(all_instances, (more,), all_after),
    ensures
        names@.len() == 0 ==> before@.len() == 0 && all_before@.len() == 0,
        !".sock"@.is_suffix_of(last@) ==> strs(after@) == strs(before@) && strs(all_after@) == strs(
            all_before@,
        ),
        forall|id: Seq<char>| #[trigger]
            (id + ".sock"@) == last@ ==> strs(all_after@) == strs(all_before@).push(id),
        forall|id: Seq<char>| #[trigger]
            (id + ".sock"@) == last@ ==> strs(after@) == if deployment_id@.push('-').is_prefix_of(
                id,
            ) {
                strs(before@).push(id)
            } else {
                strs(before@)
            },
{
    reveal_strlit(".sock");
    reveal_strlit("-");
    assert(strs(more@).drop_last() =~= strs(names@));
    assert(strs(more@).last() == last@);
    assert(strs(before@).len() == before@.len());
    assert(strs(all_before@).len() == all_before@.len());
    assert(deployment_id@ + "-"@ =~= deployment_id@.push('-'));
    assert forall|id: Seq<char>| #[trigger]
        (id + ".sock"@) == last@ implies without_suffix(last@, ".sock"@) == Some(id)
        && Seq::<char>::empty().is_prefix_of(id) by {
        assert(last@.subrange(last@.len() - 5, last@.len() as int) =~= ".sock"@);
        assert(last@.take(last@.len() - 5) =~= id);
        assert(id.subrange(0, 0) =~= Seq::<char>::empty());
    }
}

/// An instance is an orphan exactly where a scan finds it and its process is not
/// known; its networking is taken up again exactly where besides that ports are
/// published and are not forwarded yet.
pub proof fn law_orphans_are_taken_up(
    deployment: &Deployment,
    names: &Vec<String>,
    known: &Vec<String>,
    forwarded: &Vec<String>,
    deployment_id: &str,
    found: Vec<String>,
    orphans: Vec<String>,
    r: Vec<String>,
    id: Seq<char>,
)
    requires
        deployment_id@ == deployment.id@,
        call_ensures(scan_instances, (names, deployment_id), found),
        call_ensures(orphan_instances, (names, deployment_id, known), orphans),
        call_ensures(instances_to_readopt, (deployment, names, known, forwarded), r),
    ensures
        strs(orphans@).contains(id) <==> strs(found@).contains(id) && !strs(known@).contains(id),
        strs(r@).contains(id) <==> deployment.ports@.len() > 0 && strs(orphans@).contains(id)
            && !strs(forwarded@).contains(id),
{
    lemma_not_among(strs(found@), strs(known@), id);
    lemma_not_among(strs(orphans@), strs(forwarded@), id);
}

/// What is left of a list is what is not in the other one.
proof fn lemma_not_among(list: Seq<Seq<char>>, known: Seq<Seq<char>>, x: Seq<char>)
    ensures
        not_among(list, known).contains(x) <==> list.contains(x) && !known.contains(x),
    decreases list.len(),
{
    if list.len() > 0 {
        let init = list.drop_last();
        lemma_not_among(init, known, x);
        assert(init.push(list.last()) =~= list);
        lemma_contains_pushed(init, list.last(), x);
        lemma_contains_pushed(not_among(init, known), list.last(), x);
    }
}

/// The files of a machine lie in the runtime's directory, each under the machine's
/// id and an ending of its own; a volume that is kept by name lies among the volumes,
/// below its namespace. A new machine's id begins with that of its deployment.
pub proof fn law_machine_files_lie_in_the_directory(
    l: &FirecrackerLifecycle,
    id: &str,
    namespace: &str,
    volume: &str,
    deployment_id: &str,
    suffix: &str,
    socket: String,
    disk: String,
    iso: String,
    console: String,
    vsock: String,
    named: String,
    made: String,
)
    requires
        call_ensures(FirecrackerLifecycle::socket_path, (l, id), socket),
        call_ensures(FirecrackerLifecycle::rootfs_path, (l, id), disk),
        call_ensures(FirecrackerLifecycle::cidata_path, (l, id), iso),
        call_ensures(FirecrackerLifecycle::console_log_path, (l, id), console),
        call_ensures(FirecrackerLifecycle::vsock_path, (l, id), vsock),
        call_ensures(FirecrackerLifecycle::named_volume_path, (l, namespace, volume), named),
        call_ensures(FirecrackerLifecycle::new_instance_id, (deployment_id, suffix), made),
        l.config.socket_dir@.len() > 0 && l.config.socket_dir@.last() != '/',
        namespace@.len() > 0 && namespace@[0] != '/' && namespace@.last() != '/',
        volume@.len() > 0 && volume@[0] != '/',
    ensures
        ({
            let base = l.config.socket_dir@ + "/"@ + id@;
            &&& socket@ == base + ".sock"@
            &&& disk@ == base + ".ext4"@
            &&& iso@ == base + ".cidata.iso"@
            &&& console@ == base + ".console.log"@
            &&& vsock@ == base + ".vsock"@
            &&& named@ == l.config.socket_dir@ + "/volumes/"@ + namespace@ + "/"@ + volume@
                + ".ext4"@
        }),
        made@ == deployment_id@ + "-"@ + suffix@,
{
    reveal_strlit("/");
    reveal_strlit("volumes");
    reveal_strlit("/volumes/");
    let dir = l.config.socket_dir@;
    let volumes = dir + "/"@ + "volumes"@;
    assert(volumes.last() == "volumes"@.last());
    assert("/volumes/"@ =~= "/"@ + "volumes"@ + "/"@);
    let space = volumes + "/"@ + namespace@;
    assert(space.last() == namespace@.last());
    assert((volume@ + ".ext4"@)[0] == volume@[0]);
    assert(named@ =~= dir + "/volumes/"@ + namespace@ + "/"@ + volume@ + ".ext4"@);
}

} // verus!
