//! Virtual machines of a deployment: where their files lie, what a VM is
//! created with, the steps that start one, and what a tick does with a worker
//! or a job.
use vstd::prelude::*;
use crate::docker::eight_digits;
use crate::entries::{contains_text, lemma_contains_pushed};
use crate::paths::{instance_file, instance_path, join_path, joined_path};
use crate::text::{all_digits, begins, byte_prefix, cat2, cat3, cat4, chars_of, copy_opt, cuts_cleanly, decimal, decimal_u64, ends, find_last, first_bytes, hexadecimal, is_digit, last_pos, lemma_byte_prefix_len, lemma_last_pos, lemma_numeral_chars, opt_str, string_of, strip_end, strip_end_all, strs, without_suffix, without_trailing};

verus! {

/// Settings of the runtime, ready to use.
#[derive(Debug)]
pub struct CloudHypervisorRuntimeConfig {
    /// The VMM's program.
    pub binary_path: String,
    pub firmware_path: String,
    /// The directory of the sockets and the instances' files.
    pub socket_dir: String,
    /// Handed on to the VMM where it is given.
    pub seccomp: Option<String>,
    /// The size past which a console log is rotated; zero switches that off.
    pub max_console_log_bytes: u64,
    pub max_console_log_backups: u32,
}

/// Settings as the operator writes them.
#[derive(Debug)]
pub struct CloudHypervisorConfig {
    pub binary_path: Option<String>,
    pub firmware_path: Option<String>,
    pub socket_dir: Option<String>,
    pub seccomp: Option<String>,
    pub max_console_log_bytes: Option<u64>,
    pub max_console_log_backups: Option<u32>,
}

/// The first text where it is given, otherwise the second.
pub open spec fn or_text(o: Option<String>, fallback: Seq<char>) -> Seq<char> {
    match o {
        Some(s) => s@,
        None => fallback,
    }
}

/// The first text where it is given, otherwise the second.
pub fn text_or(o: &Option<String>, fallback: String) -> (r: String)
    ensures
        r@ == or_text(*o, fallback@),
{
    match o {
        Some(s) => s.clone(),
        None => fallback,
    }
}

impl CloudHypervisorRuntimeConfig {
    /// The settings that hold where the operator gives none, below the
    /// directory `base_dir`.
    pub fn defaults(base_dir: &str) -> (r: Self)
        ensures
            r.binary_path@ == "cloud-hypervisor"@,
            r.firmware_path@ == base_dir@ + "/cloud-hypervisor/vmlinux"@,
            r.socket_dir@ == base_dir@ + "/cloud-hypervisor/sockets"@,
            r.seccomp is None,
            r.max_console_log_bytes == 10_485_760,
            r.max_console_log_backups == 3,
    {
        CloudHypervisorRuntimeConfig {
            binary_path: "cloud-hypervisor".to_owned(),
            firmware_path: cat2(base_dir, "/cloud-hypervisor/vmlinux"),
            socket_dir: cat2(base_dir, "/cloud-hypervisor/sockets"),
            seccomp: None,
            max_console_log_bytes: 10_485_760,
            max_console_log_backups: 3,
        }
    }

    /// The operator's settings, with the defaults where one is not given.
    pub fn from_user_config(user: &CloudHypervisorConfig, base_dir: &str) -> (r: Self)
        ensures
            r.binary_path@ == or_text(user.binary_path, "cloud-hypervisor"@),
            r.firmware_path@ == or_text(
                user.firmware_path,
                base_dir@ + "/cloud-hypervisor/vmlinux"@,
            ),
            r.socket_dir@ == or_text(user.socket_dir, base_dir@ + "/cloud-hypervisor/sockets"@),
            r.seccomp == user.seccomp,
            r.max_console_log_bytes == match user.max_console_log_bytes {
                Some(n) => n,
                None => 10_485_760,
            },
            r.max_console_log_backups == match user.max_console_log_backups {
                Some(n) => n,
                None => 3,
            },
    {
        let d = CloudHypervisorRuntimeConfig::defaults(base_dir);
        CloudHypervisorRuntimeConfig {
            binary_path: text_or(&user.binary_path, d.binary_path),
            firmware_path: text_or(&user.firmware_path, d.firmware_path),
            socket_dir: text_or(&user.socket_dir, d.socket_dir),
            seccomp: copy_opt(&user.seccomp),
            max_console_log_bytes: match user.max_console_log_bytes {
                Some(n) => n,
                None => d.max_console_log_bytes,
            },
            max_console_log_backups: match user.max_console_log_backups {
                Some(n) => n,
                None => d.max_console_log_backups,
            },
        }
    }
}

/// What is known of the process behind an instance.
#[derive(Clone, Copy, Debug, PartialEq, Eq, Structural)]
pub struct InstanceProcessInfo {
    pub pid: u32,
    pub memory_limit_bytes: u64,
}

/// The runtime.
#[derive(Debug)]
pub struct CloudHypervisorLifecycle {
    pub config: CloudHypervisorRuntimeConfig,
}

/// What the ids of a deployment's instances begin with.
pub open spec fn instance_prefix(deployment_id: Seq<char>) -> Seq<char> {
    "ch-"@ + byte_prefix(deployment_id, 8) + "-"@
}

/// The directory of a volume that is kept by name.
pub open spec fn volume_dir(dir: Seq<char>, namespace: Seq<char>, name: Seq<char>) -> Seq<char> {
    joined_path(joined_path(joined_path(dir, "volumes"@), namespace), name)
}

/// The name of the socket of an instance's shared directory.
pub open spec fn share_socket_name(id: Seq<char>, idx: nat) -> Seq<char> {
    id + ".virtiofs-"@ + decimal(idx) + ".sock"@
}

/// The socket of an instance's shared directory.
pub open spec fn share_socket(dir: Seq<char>, id: Seq<char>, idx: nat) -> Seq<char> {
    joined_path(dir, share_socket_name(id, idx))
}

impl CloudHypervisorLifecycle {
    /// The runtime with these settings.
    pub fn new(config: CloudHypervisorRuntimeConfig) -> (r: Self)
        ensures
            r.config == config,
    {
        CloudHypervisorLifecycle { config }
    }

    /// The directory with an instance's rendered files.
    pub fn instance_share_dir(&self, instance_id: &str) -> (r: String)
        ensures
            r@ == instance_file(self.config.socket_dir@, instance_id@, ".shares"@),
    {
        instance_path(self.config.socket_dir.as_str(), instance_id, ".shares")
    }

    /// The socket of an instance's shared directory.
    pub fn virtiofs_socket_path(&self, instance_id: &str, idx: usize) -> (r: String)
        ensures
            r@ == share_socket(self.config.socket_dir@, instance_id@, idx as nat),
    {
        let number = decimal_u64(idx as u64);
        let name = cat4(instance_id, ".virtiofs-", number.as_str(), ".sock");
        join_path(self.config.socket_dir.as_str(), name.as_str())
    }

    /// The directory of a volume that is kept by name.
    pub fn named_volume_dir(&self, namespace: &str, name: &str) -> (r: String)
        ensures
            r@ == volume_dir(self.config.socket_dir@, namespace@, name@),
    {
        let volumes = join_path(self.config.socket_dir.as_str(), "volumes");
        let dir = join_path(volumes.as_str(), namespace);
        join_path(dir.as_str(), name)
    }

    /// The control socket of an instance.
    pub fn socket_path(&self, instance_id: &str) -> (r: String)
        ensures
            r@ == instance_file(self.config.socket_dir@, instance_id@, ".sock"@),
    {
        instance_path(self.config.socket_dir.as_str(), instance_id, ".sock")
    }

    /// The disk of an instance.
    pub fn instance_image_path(&self, instance_id: &str) -> (r: String)
        ensures
            r@ == instance_file(self.config.socket_dir@, instance_id@, ".raw"@),
    {
        instance_path(self.config.socket_dir.as_str(), instance_id, ".raw")
    }

    /// The image with what an instance learns at its first boot.
    pub fn cidata_iso_path(&self, instance_id: &str) -> (r: String)
        ensures
            r@ == instance_file(self.config.socket_dir@, instance_id@, ".cidata.iso"@),
    {
        instance_path(self.config.socket_dir.as_str(), instance_id, ".cidata.iso")
    }

    /// The console log of an instance.
    pub fn console_log_path(&self, instance_id: &str) -> (r: String)
        ensures
            r@ == instance_file(self.config.socket_dir@, instance_id@, ".console.log"@),
    {
        instance_path(self.config.socket_dir.as_str(), instance_id, ".console.log")
    }

    /// The host's end of an instance's socket device.
    pub fn vsock_path(&self, instance_id: &str) -> (r: String)
        ensures
            r@ == instance_file(self.config.socket_dir@, instance_id@, ".vsock"@),
    {
        instance_path(self.config.socket_dir.as_str(), instance_id, ".vsock")
    }

    /// What the ids of a deployment's instances begin with.
    pub fn deployment_prefix(deployment_id: &str) -> (r: String)
        requires
            cuts_cleanly(deployment_id@, 8),
        ensures
            r@ == instance_prefix(deployment_id@),
    {
        let short = first_bytes(deployment_id, 8);
        cat3("ch-", short.as_str(), "-")
    }

    /// The id of a new instance, given its random suffix.
    pub fn new_instance_id(deployment_id: &str, suffix: &str) -> (r: String)
        requires
            cuts_cleanly(deployment_id@, 8),
        ensures
            r@ == instance_prefix(deployment_id@) + suffix@,
    {
        let prefix = CloudHypervisorLifecycle::deployment_prefix(deployment_id);
        cat2(prefix.as_str(), suffix)
    }
}

// ---------------------------------------------------------------------------
// Instances on disk
// ---------------------------------------------------------------------------

/// The instance that a socket with this stem serves a shared directory of: what
/// stands before `.virtiofs-` and a number. `None` for another stem.
pub open spec fn share_owner(stem: Seq<char>) -> Option<Seq<char>> {
    let dash = last_pos(stem, '-');
    if dash >= 0 && all_digits(stem.skip(dash + 1)) {
        without_suffix(stem.take(dash + 1), ".virtiofs-"@)
    } else {
        None
    }
}

/// The instance that a socket with this stem serves a shared directory of.
fn owner_of_share(stem: &str) -> (r: Option<String>)
    ensures
        opt_str(r) == share_owner(stem@),
{
    let text = chars_of(stem);
    let dash = match find_last(&text, '-') {
        Some(p) => p,
        None => return None,
    };
    let ghost tail = stem@.skip(dash + 1);
    if dash + 1 == text.len() {
        assert(tail.len() == 0);
        return None;
    }
    let mut i: usize = dash + 1;
    while i < text.len()
        invariant
            text@ == stem@,
            dash + 1 <= i <= text.len(),
            tail == stem@.skip(dash + 1),
            forall|j: int| 0 <= j < i - dash - 1 ==> is_digit(#[trigger] tail[j]),
            dash == last_pos(stem@, '-'),
        decreases text.len() - i,
    {
        assert(tail[i - dash - 1] == text@[i as int]);
        if !('0' <= text[i] && text[i] <= '9') {
            assert(!is_digit(tail[i - dash - 1]));
            return None;
        }
        i += 1;
    }
    assert(all_digits(tail));
    let head = string_of(&text, 0, dash + 1);
    assert(head@ =~= stem@.take(dash + 1));
    strip_end(head.as_str(), ".virtiofs-")
}

/// The instance whose control socket has this name, where it belongs to the
/// deployment with this prefix. The socket of a shared directory is no control
/// socket.
pub open spec fn socket_instance(name: Seq<char>, prefix: Seq<char>) -> Option<Seq<char>> {
    let stem = without_trailing(name, ".sock"@);
    if prefix.is_prefix_of(name) && ".sock"@.is_suffix_of(name) && share_owner(stem) is None {
        Some(stem)
    } else {
        None
    }
}

/// The instance whose control socket has this name, where it belongs to the
/// deployment with this prefix.
pub fn instance_of_socket(name: &str, prefix: &str) -> (r: Option<String>)
    ensures
        opt_str(r) == socket_instance(name@, prefix@),
{
    if !begins(name, prefix) || !ends(name, ".sock") {
        return None;
    }
    proof {
        reveal_strlit(".sock");
    }
    let stem = strip_end_all(name, ".sock");
    if owner_of_share(stem.as_str()).is_some() {
        None
    } else {
        Some(stem)
    }
}

/// Whether a VM in this state is listed. No states to choose from stand for any
/// state, a VM that does not answer included.
pub open spec fn state_accepted(accepted: Seq<Seq<char>>, state: Option<Seq<char>>) -> bool {
    accepted.len() == 0 || (state matches Some(s) && accepted.contains(s))
}

/// Whether a VM in this state is listed.
pub fn accepts_state(accepted: &Vec<String>, state: &Option<String>) -> (r: bool)
    ensures
        r == state_accepted(strs(accepted@), opt_str(*state)),
{
    if accepted.len() == 0 {
        return true;
    }
    match state {
        Some(s) => contains_text(accepted, s.as_str()),
        None => false,
    }
}

/// A file of the socket directory, and the state that the VM behind it answered
/// with, where it was asked and answered.
#[derive(Debug)]
pub struct SocketFile {
    pub name: String,
    pub state: Option<String>,
}

/// Whether a file is the control socket of instance `id` of the deployment with
/// this prefix, and the VM behind it is listed.
pub open spec fn socket_listed(
    file: SocketFile,
    prefix: Seq<char>,
    accepted: Seq<Seq<char>>,
    id: Seq<char>,
) -> bool {
    socket_instance(file.name@, prefix) == Some(id) && state_accepted(accepted, opt_str(file.state))
}

/// The instances of the deployment with this prefix whose VMs are in one of the
/// accepted states, in the order of the files, each once.
pub open spec fn scanned(
    files: Seq<SocketFile>,
    prefix: Seq<char>,
    accepted: Seq<Seq<char>>,
) -> Seq<Seq<char>>
    decreases files.len(),
{
    if files.len() == 0 {
        seq![]
    } else {
        let rest = scanned(files.drop_last(), prefix, accepted);
        match socket_instance(files.last().name@, prefix) {
            Some(id) => if state_accepted(accepted, opt_str(files.last().state))
                && !rest.contains(id) {
                rest.push(id)
            } else {
                rest
            },
            None => rest,
        }
    }
}

/// The instances of a deployment, given the files of the socket directory: those
/// whose VMs are in one of the accepted states, and in any state where none is
/// given.
pub fn scan_instances(
    files: &Vec<SocketFile>,
    deployment_id: &str,
    accepted: &Vec<String>,
) -> (r: Vec<String>)
    requires
        cuts_cleanly(deployment_id@, 8),
    ensures
        strs(r@) == scanned(files@, instance_prefix(deployment_id@), strs(accepted@)),
{
    let prefix = CloudHypervisorLifecycle::deployment_prefix(deployment_id);
    let mut out: Vec<String> = Vec::new();
    let mut i: usize = 0;
    assert(strs(out@) =~= seq![]);
    while i < files.len()
        invariant
            i <= files.len(),
            prefix@ == instance_prefix(deployment_id@),
            strs(out@) == scanned(files@.take(i as int), prefix@, strs(accepted@)),
        decreases files.len() - i,
    {
        assert(files@.take(i + 1).drop_last() =~= files@.take(i as int));
        assert(files@.take(i + 1).last() == files@[i as int]);
        let ghost before = out@;
        if let Some(id) = instance_of_socket(files[i].name.as_str(), prefix.as_str()) {
            if accepts_state(accepted, &files[i].state) && !contains_text(&out, id.as_str()) {
                out.push(id);
                assert(strs(out@) =~= strs(before).push(id@));
            }
        }
        i += 1;
    }
    assert(files@.take(files.len() as int) =~= files@);
    out
}

/// A file name without the number that rotation gives a console log.
pub open spec fn without_rotation(name: Seq<char>) -> Seq<char> {
    let dot = last_pos(name, '.');
    if dot >= 0 && (forall|i: int| dot < i < name.len() ==> is_digit(#[trigger] name[i]))
        && ".console.log"@.is_suffix_of(name.take(dot)) {
        name.take(dot)
    } else {
        name
    }
}

/// The instance that a file of the socket directory belongs to, by its suffix.
/// The socket of a shared directory belongs to the instance that it serves.
pub open spec fn file_instance(name: Seq<char>) -> Option<Seq<char>> {
    let base = without_rotation(name);
    if without_suffix(base, ".sock"@) is Some {
        let stem = without_suffix(base, ".sock"@)->0;
        if share_owner(stem) is Some {
            share_owner(stem)
        } else {
            Some(stem)
        }
    } else if without_suffix(base, ".raw"@) is Some {
        without_suffix(base, ".raw"@)
    } else if without_suffix(base, ".console.log"@) is Some {
        without_suffix(base, ".console.log"@)
    } else if without_suffix(base, ".cidata.iso"@) is Some {
        without_suffix(base, ".cidata.iso"@)
    } else if without_suffix(base, ".vsock"@) is Some {
        without_suffix(base, ".vsock"@)
    } else {
        without_suffix(base, ".shares"@)
    }
}

/// A file name without the number that rotation gives a console log.
fn strip_rotation(name: &str) -> (r: String)
    ensures
        r@ == without_rotation(name@),
{
    let text = chars_of(name);
    let dot = match find_last(&text, '.') {
        Some(p) => p,
        None => return name.to_owned(),
    };
    let mut i: usize = dot + 1;
    while i < text.len()
        invariant
            text@ == name@,
            dot == last_pos(name@, '.'),
            dot + 1 <= i <= text.len(),
            forall|j: int| dot < j < i ==> is_digit(#[trigger] name@[j]),
        decreases text.len() - i,
    {
        if !('0' <= text[i] && text[i] <= '9') {
            assert(!is_digit(name@[i as int]));
            return name.to_owned();
        }
        i += 1;
    }
    let head = string_of(&text, 0, dot);
    assert(head@ =~= name@.take(dot as int));
    if ends(head.as_str(), ".console.log") {
        head
    } else {
        name.to_owned()
    }
}

/// The instance that a file of the socket directory belongs to, by its suffix.
pub fn instance_of_file(name: &str) -> (r: Option<String>)
    ensures
        opt_str(r) == file_instance(name@),
{
    let base = strip_rotation(name);
    if let Some(stem) = strip_end(base.as_str(), ".sock") {
        match owner_of_share(stem.as_str()) {
            Some(id) => Some(id),
            None => Some(stem),
        }
    } else if let Some(id) = strip_end(base.as_str(), ".raw") {
        Some(id)
    } else if let Some(id) = strip_end(base.as_str(), ".console.log") {
        Some(id)
    } else if let Some(id) = strip_end(base.as_str(), ".cidata.iso") {
        Some(id)
    } else if let Some(id) = strip_end(base.as_str(), ".vsock") {
        Some(id)
    } else {
        strip_end(base.as_str(), ".shares")
    }
}

/// Whether the file with this name belongs to instance `id` of the deployment
/// with this prefix.
pub open spec fn file_belongs(name: Seq<char>, prefix: Seq<char>, id: Seq<char>) -> bool {
    prefix.is_prefix_of(name) && file_instance(name) == Some(id)
}

/// Whether some file of a directory belongs to instance `id`.
pub open spec fn left_files(names: Seq<String>, prefix: Seq<char>, id: Seq<char>) -> bool {
    exists|i: int| 0 <= i < names.len() && #[trigger] file_belongs(names[i]@, prefix, id)
}

/// Whether `ids` are those of the instances that some file of a directory belongs
/// to.
pub open spec fn are_left_behind(names: Seq<String>, prefix: Seq<char>, ids: Seq<Seq<char>>) -> bool {
    forall|id: Seq<char>| #[trigger] ids.contains(id) <==> left_files(names, prefix, id)
}

/// The instances of a deployment that have left files behind, each once: those
/// that some file of the directory belongs to.
pub fn orphaned_instances(names: &Vec<String>, deployment_id: &str) -> (r: Vec<String>)
    requires
        cuts_cleanly(deployment_id@, 8),
    ensures
        strs(r@).no_duplicates(),
        forall|id: Seq<char>|
            strs(r@).contains(id) <==> exists|i: int|
                0 <= i < names.len() && #[trigger] file_belongs(
                    names@[i]@,
                    instance_prefix(deployment_id@),
                    id,
                ),
        are_left_behind(names@, instance_prefix(deployment_id@), strs(r@)),
{
    let prefix = CloudHypervisorLifecycle::deployment_prefix(deployment_id);
    let mut out: Vec<String> = Vec::new();
    let mut i: usize = 0;
    while i < names.len()
        invariant
            i <= names.len(),
            prefix@ == instance_prefix(deployment_id@),
            strs(out@).no_duplicates(),
            forall|id: Seq<char>|
                strs(out@).contains(id) <==> exists|k: int|
                    0 <= k < i && #[trigger] file_belongs(names@[k]@, prefix@, id),
        decreases names.len() - i,
    {
        let ghost before = out@;
        if begins(names[i].as_str(), prefix.as_str()) {
            if let Some(id) = instance_of_file(names[i].as_str()) {
                let known = contains_text(&out, id.as_str());
                if !known {
                    out.push(id);
                    assert(strs(out@) =~= strs(before).push(id@));
                }
                assert(file_belongs(names@[i as int]@, prefix@, id@));
                assert forall|x: Seq<char>|
                    strs(out@).contains(x) <==> exists|k: int|
                        0 <= k < i + 1 && #[trigger] file_belongs(names@[k]@, prefix@, x) by {
                    lemma_contains_pushed(strs(before), id@, x);
                    if strs(before).contains(x) {
                        let k = choose|k: int|
                            0 <= k < i && #[trigger] file_belongs(names@[k]@, prefix@, x);
                        assert(file_belongs(names@[k]@, prefix@, x));
                    }
                    if exists|k: int|
                        0 <= k < i + 1 && #[trigger] file_belongs(names@[k]@, prefix@, x) {
                        let k = choose|k: int|
                            0 <= k < i + 1 && #[trigger] file_belongs(names@[k]@, prefix@, x);
                        if k < i {
                            assert(strs(before).contains(x));
                        } else {
                            assert(x == id@);
                        }
                    }
                }
            } else {
                assert forall|x: Seq<char>|
                    strs(out@).contains(x) <==> exists|k: int|
                        0 <= k < i + 1 && #[trigger] file_belongs(names@[k]@, prefix@, x) by {
                    lemma_no_new_owner(names@, prefix@, x, i as int);
                }
            }
        } else {
            assert forall|x: Seq<char>|
                strs(out@).contains(x) <==> exists|k: int|
                    0 <= k < i + 1 && #[trigger] file_belongs(names@[k]@, prefix@, x) by {
                lemma_no_new_owner(names@, prefix@, x, i as int);
            }
        }
        i += 1;
    }
    out
}

/// A file that belongs to no one changes nothing.
proof fn lemma_no_new_owner(names: Seq<String>, prefix: Seq<char>, id: Seq<char>, i: int)
    requires
        0 <= i < names.len(),
        !file_belongs(names[i]@, prefix, id),
    ensures
        (exists|k: int| 0 <= k < i && #[trigger] file_belongs(names[k]@, prefix, id)) <==> (exists|
            k: int,
        |
            0 <= k < i + 1 && #[trigger] file_belongs(names[k]@, prefix, id)),
{
    if exists|k: int| 0 <= k < i && #[trigger] file_belongs(names[k]@, prefix, id) {
        let k = choose|k: int| 0 <= k < i && #[trigger] file_belongs(names[k]@, prefix, id);
        assert(0 <= k < i + 1 && file_belongs(names[k]@, prefix, id));
    }
    if exists|k: int| 0 <= k < i + 1 && #[trigger] file_belongs(names[k]@, prefix, id) {
        let k = choose|k: int| 0 <= k < i + 1 && #[trigger] file_belongs(names[k]@, prefix, id);
        assert(0 <= k < i && file_belongs(names[k]@, prefix, id));
    }
}

// ---------------------------------------------------------------------------
// Laws
// ---------------------------------------------------------------------------

/// A text that ends in a dash and a number, each behind what it is known by.
proof fn lemma_share_owner(id: Seq<char>, idx: nat)
    ensures
        share_owner(id + ".virtiofs-"@ + decimal(idx)) == Some(id),
        all_digits(decimal(idx)),
{
    reveal_strlit(".virtiofs-");
    lemma_numeral_chars(idx, 10);
    let number = decimal(idx);
    let head = id + ".virtiofs-"@;
    let stem = head + number;
    let dash = head.len() - 1;
    lemma_last_pos(stem, '-');
    assert(stem[dash] == '-');
    assert forall|j: int| dash < j < stem.len() implies stem[j] != '-' by {
        assert(stem[j] == number[j - dash - 1]);
        assert(is_digit(number[j - dash - 1]));
    }
    assert(last_pos(stem, '-') == dash);
    assert(stem.skip(dash + 1) =~= number);
    assert(stem.take(dash + 1) =~= head);
    assert(head.subrange(head.len() - 10, head.len() as int) =~= ".virtiofs-"@);
    assert(head.take(head.len() - 10) =~= id);
}

/// A name that ends in a socket's suffix is not that of a rotated log.
proof fn lemma_socket_is_not_rotated(stem: Seq<char>)
    ensures
        without_rotation(stem + ".sock"@) == stem + ".sock"@,
        without_suffix(stem + ".sock"@, ".sock"@) == Some(stem),
        ".sock"@.is_suffix_of(stem + ".sock"@),
{
    reveal_strlit(".sock");
    let name = stem + ".sock"@;
    lemma_last_pos(name, '.');
    let dot = stem.len() as int;
    assert(name[dot] == '.');
    assert(forall|j: int| dot < j < name.len() ==> name[j] != '.');
    assert(last_pos(name, '.') == dot);
    assert(!is_digit(name[dot + 1]));
    assert(name.subrange(name.len() - 5, name.len() as int) =~= ".sock"@);
    assert(name.take(name.len() - 5) =~= stem);
}

/// The socket of a shared directory, whatever the directory and the number, is
/// not taken for an instance's control socket, and its file belongs to the
/// instance that it serves.
pub proof fn law_share_socket_is_no_instance(
    dir: Seq<char>,
    id: Seq<char>,
    idx: nat,
    prefix: Seq<char>,
)
    ensures
        share_socket(dir, id, idx) == joined_path(dir, share_socket_name(id, idx)),
        socket_instance(share_socket_name(id, idx), prefix) is None,
        file_instance(share_socket_name(id, idx)) == Some(id),
{
    reveal_strlit(".sock");
    let stem = id + ".virtiofs-"@ + decimal(idx);
    lemma_share_owner(id, idx);
    lemma_socket_is_not_rotated(stem);
    let number = decimal(idx);
    assert(stem.last() == number.last());
    assert(is_digit(number[number.len() - 1]));
    if ".sock"@.is_suffix_of(stem) {
        assert(stem.subrange(stem.len() - 5, stem.len() as int)[4] == stem.last());
    }
    assert(without_trailing(stem, ".sock"@) == stem);
    assert(without_trailing(stem + ".sock"@, ".sock"@) == stem);
}

/// The control socket of a new instance is found again as that instance.
pub proof fn law_new_instance_is_found(deployment_id: Seq<char>, n: u32)
    requires
        cuts_cleanly(deployment_id, 8),
    ensures
        ({
            let id = instance_prefix(deployment_id) + eight_digits(n);
            &&& socket_instance(id + ".sock"@, instance_prefix(deployment_id)) == Some(id)
            &&& file_instance(id + ".sock"@) == Some(id)
        }),
{
    reveal_strlit(".sock");
    reveal_strlit("ch-");
    reveal_strlit("-");
    reveal_strlit(".virtiofs-");
    let prefix = instance_prefix(deployment_id);
    let p = byte_prefix(deployment_id, 8);
    let suffix = eight_digits(n);
    let id = prefix + suffix;
    lemma_byte_prefix_len(deployment_id, 8);
    lemma_numeral_chars(n as nat, 16);
    lemma_socket_is_not_rotated(id);
    assert forall|i: int| 0 <= i < suffix.len() implies is_digit(#[trigger] suffix[i]) || 'a'
        <= suffix[i] <= 'f' by {
        let text = hexadecimal(n as nat);
        if text.len() < 8 {
            let pad = 8 - text.len();
            if i >= pad {
                assert(suffix[i] == text[i - pad]);
            } else {
                assert(suffix[i] == '0');
            }
        }
    }
    let dash = prefix.len() - 1;
    lemma_last_pos(id, '-');
    assert(id[dash] == '-');
    assert forall|j: int| dash < j < id.len() implies id[j] != '-' by {
        assert(id[j] == suffix[j - dash - 1]);
    }
    assert(last_pos(id, '-') == dash);
    assert(id.take(dash + 1) =~= prefix);
    if ".virtiofs-"@.is_suffix_of(prefix) {
        let part = prefix.subrange(prefix.len() - 10, prefix.len() as int);
        assert(part[0] == '.');
        assert(part[0] == prefix[prefix.len() - 10]);
        assert(prefix.len() <= 12);
        assert(prefix[0] == 'c' && prefix[1] == 'h' && prefix[2] == '-');
    }
    assert(share_owner(id) is None);
    assert(id.last() == suffix.last());
    assert(suffix[suffix.len() - 1] != 'k');
    if ".sock"@.is_suffix_of(id) {
        assert(id.subrange(id.len() - 5, id.len() as int)[4] == id.last());
    }
    assert(without_trailing(id, ".sock"@) == id);
    assert(without_trailing(id + ".sock"@, ".sock"@) == id);
    assert(prefix =~= (id + ".sock"@).subrange(0, prefix.len() as int));
}

/// A scan lists an instance exactly where some file is its control socket and
/// its VM is in an accepted state, and lists it once.
pub proof fn law_scan_lists_each_instance_once(
    files: Seq<SocketFile>,
    prefix: Seq<char>,
    accepted: Seq<Seq<char>>,
)
    ensures
        scanned(files, prefix, accepted).no_duplicates(),
        forall|id: Seq<char>|
            scanned(files, prefix, accepted).contains(id) <==> exists|i: int|
                0 <= i < files.len() && #[trigger] socket_listed(files[i], prefix, accepted, id),
    decreases files.len(),
{
    if files.len() > 0 {
        let front = files.drop_last();
        let rest = scanned(front, prefix, accepted);
        let all = scanned(files, prefix, accepted);
        law_scan_lists_each_instance_once(front, prefix, accepted);
        assert forall|id: Seq<char>|
            all.contains(id) <==> exists|i: int|
                0 <= i < files.len() && #[trigger] socket_listed(files[i], prefix, accepted, id) by {
            let last = files.len() - 1;
            if let Some(found) = socket_instance(files[last].name@, prefix) {
                lemma_contains_pushed(rest, found, id);
            }
            if all.contains(id) {
                if rest.contains(id) {
                    let i = choose|i: int|
                        0 <= i < front.len() && #[trigger] socket_listed(
                            front[i],
                            prefix,
                            accepted,
                            id,
                        );
                    assert(socket_listed(files[i], prefix, accepted, id));
                } else {
                    assert(socket_listed(files[last], prefix, accepted, id));
                }
            }
            if exists|i: int|
                0 <= i < files.len() && #[trigger] socket_listed(files[i], prefix, accepted, id) {
                let i = choose|i: int|
                    0 <= i < files.len() && #[trigger] socket_listed(
                        files[i],
                        prefix,
                        accepted,
                        id,
                    );
                if i < last {
                    assert(socket_listed(front[i], prefix, accepted, id));
                }
            }
        }
    } else {
        assert(scanned(files, prefix, accepted) =~= seq![]);
    }
}

/// A setting that the operator gives is used as it is given, and each of the
/// others has its default.
pub proof fn law_given_settings_win(
    user: &CloudHypervisorConfig,
    base_dir: &str,
    d: CloudHypervisorRuntimeConfig,
    r: CloudHypervisorRuntimeConfig,
)
    requires
        call_ensures(CloudHypervisorRuntimeConfig::defaults, (base_dir,), d),
        call_ensures(CloudHypervisorRuntimeConfig::from_user_config, (user, base_dir), r),
    ensures
        user.binary_path matches Some(s) ==> r.binary_path@ == s@,
        user.binary_path is None ==> r.binary_path@ == d.binary_path@,
        user.firmware_path matches Some(s) ==> r.firmware_path@ == s@,
        user.firmware_path is None ==> r.firmware_path@ == d.firmware_path@,
        user.socket_dir matches Some(s) ==> r.socket_dir@ == s@,
        user.socket_dir is None ==> r.socket_dir@ == d.socket_dir@,
        r.seccomp == user.seccomp,
        user.max_console_log_bytes matches Some(n) ==> r.max_console_log_bytes == n,
        user.max_console_log_bytes is None ==> r.max_console_log_bytes == d.max_console_log_bytes,
        user.max_console_log_backups matches Some(n) ==> r.max_console_log_backups == n,
        user.max_console_log_backups is None ==> r.max_console_log_backups
            == d.max_console_log_backups,
        d.max_console_log_bytes == 10 * 1024 * 1024,
        d.max_console_log_backups == 3,
{
}

/// A VM in any state is listed where no states are given to choose from;
/// otherwise exactly one whose state is among them, and never one that does not
/// answer.
pub proof fn law_no_choice_takes_every_state(
    accepted: &Vec<String>,
    state: &Option<String>,
    r: bool,
)
    requires
        call_ensures(accepts_state, (accepted, state), r),
    ensures
        accepted@.len() == 0 ==> r,
        accepted@.len() > 0 && *state is None ==> !r,
        accepted@.len() > 0 ==> (*state matches Some(s) ==> (r <==> exists|i: int|
            0 <= i < accepted@.len() && (#[trigger] accepted@[i])@ == s@)),
{
    if let Some(s) = *state {
        let list = strs(accepted@);
        assert(list.len() == accepted@.len());
        if list.contains(s@) {
            let i = choose|i: int| 0 <= i < list.len() && list[i] == s@;
            assert(accepted@[i]@ == s@);
        }
        if exists|i: int| 0 <= i < accepted@.len() && (#[trigger] accepted@[i])@ == s@ {
            let i = choose|i: int| 0 <= i < accepted@.len() && (#[trigger] accepted@[i])@ == s@;
            assert(list[i] == s@);
        }
    }
}

/// A file leads to an instance only where its name begins with the deployment's
/// prefix and ends like a socket; the instance's id is what stands before the
/// socket's ending.
pub proof fn law_only_own_sockets_are_instances(name: &str, prefix: &str, r: Option<String>)
    requires
        call_ensures(instance_of_socket, (name, prefix), r),
    ensures
        r is Some ==> prefix@.is_prefix_of(name@) && ".sock"@.is_suffix_of(name@),
        r matches Some(id) ==> id@.is_prefix_of(name@) && id@.len() + 5 <= name@.len()
            && !".sock"@.is_suffix_of(id@),
{
    reveal_strlit(".sock");
    if ".sock"@.is_suffix_of(name@) {
        lemma_stem(name@);
    }
}

/// What is left of a text behind which an ending was cut off.
proof fn lemma_stem(name: Seq<char>)
    ensures
        without_trailing(name, ".sock"@).is_prefix_of(name),
        !".sock"@.is_suffix_of(without_trailing(name, ".sock"@)),
        ".sock"@.is_suffix_of(name) ==> without_trailing(name, ".sock"@).len() + 5 <= name.len(),
    decreases name.len(),
{
    reveal_strlit(".sock");
    if ".sock"@.is_suffix_of(name) {
        let shorter = name.take(name.len() - 5);
        lemma_stem(shorter);
        let stem = without_trailing(shorter, ".sock"@);
        assert(without_trailing(name, ".sock"@) == stem);
        assert(shorter.subrange(0, stem.len() as int) =~= stem);
        assert(name.subrange(0, stem.len() as int) =~= stem);
    } else {
        assert(name.subrange(0, name.len() as int) =~= name);
    }
}

/// A scan goes through the files in their order: one more file adds the instance
/// that it is the control socket of, where its VM is in an accepted state and it
/// is not listed yet.
pub proof fn law_scan_adds_one_instance(
    files: &Vec<SocketFile>,
    more: &Vec<SocketFile>,
    last: SocketFile,
    deployment_id: &str,
    accepted: &Vec<String>,
    name: &str,
    prefix: String,
    prefix_text: &str,
    owner: Option<String>,
    accepts: bool,
    before: Vec<String>,
    after: Vec<String>,
)
    requires
        more@ == files@.push(last),
        name@ == last.name@,
        call_ensures(CloudHypervisorLifecycle::deployment_prefix, (deployment_id,), prefix),
        prefix_text@ == prefix@,
        call_ensures(instance_of_socket, (name, prefix_text), owner),
        call_ensures(accepts_state, (accepted, &last.state), accepts),
        call_ensures(scan_instances, (files, deployment_id, accepted), before),
        call_ensures(scan_instances, (more, deployment_id, accepted), after),
    ensures
        files@.len() == 0 ==> before@.len() == 0,
        ({
            let new = owner is Some && accepts && !strs(before@).contains(owner->0@);
            &&& new ==> strs(after@) == strs(before@).push(owner->0@)
            &&& !new ==> strs(after@) == strs(before@)
        }),
{
    assert(more@.drop_last() =~= files@);
    assert(strs(before@).len() == before@.len());
}

/// Every file of an instance leads back to it by its name: its disk, its console
/// log and each backup of that, the image for its first boot, its socket device
/// and its rendered files.
pub proof fn law_files_lead_back_to_their_instance(
    id: Seq<char>,
    suffix: Seq<char>,
    n: nat,
    name: &str,
    backup: &str,
    r: Option<String>,
    of_backup: Option<String>,
)
    requires
        suffix == ".raw"@ || suffix == ".console.log"@ || suffix == ".cidata.iso"@ || suffix
            == ".vsock"@ || suffix == ".shares"@,
        name@ == id + suffix,
        backup@ == id + ".console.log"@ + "."@ + decimal(n),
        call_ensures(instance_of_file, (name,), r),
        call_ensures(instance_of_file, (backup,), of_backup),
    ensures
        opt_str(r) == Some(id),
        opt_str(of_backup) == Some(id),
{
    reveal_strlit(".raw");
    reveal_strlit(".console.log");
    reveal_strlit(".cidata.iso");
    reveal_strlit(".vsock");
    reveal_strlit(".shares");
    reveal_strlit(".sock");
    reveal_strlit(".");
    lemma_suffixed_file(id, suffix);
    lemma_suffixed_file(id, ".console.log"@);
    let log = id + ".console.log"@;
    let full = log + "."@ + decimal(n);
    lemma_numeral_chars(n, 10);
    lemma_last_pos(full, '.');
    let dot = log.len() as int;
    assert(full[dot] == '.');
    assert forall|j: int| dot < j < full.len() implies is_digit(#[trigger] full[j]) by {
        assert(full[j] == decimal(n)[j - dot - 1]);
    }
    assert(last_pos(full, '.') == dot);
    assert(full.take(dot) =~= log);
    assert(log.subrange(log.len() - 12, log.len() as int) =~= ".console.log"@);
    assert(without_rotation(full) == log);
    assert(without_rotation(log) == log);
}

/// A name that ends in one of the files' endings is not that of a rotated log,
/// and ends in no other of them.
proof fn lemma_suffixed_file(id: Seq<char>, suffix: Seq<char>)
    requires
        suffix == ".raw"@ || suffix == ".console.log"@ || suffix == ".cidata.iso"@ || suffix
            == ".vsock"@ || suffix == ".shares"@,
    ensures
        without_rotation(id + suffix) == id + suffix,
        file_instance(id + suffix) == Some(id),
{
    reveal_strlit(".raw");
    reveal_strlit(".console.log");
    reveal_strlit(".cidata.iso");
    reveal_strlit(".vsock");
    reveal_strlit(".shares");
    reveal_strlit(".sock");
    let name = id + suffix;
    lemma_last_pos(name, '.');
    let last = name.len() - 1;
    assert(name[last] == suffix[suffix.len() - 1]);
    assert(!is_digit(name[last]));
    assert(name[last] != '.');
    let dot = last_pos(name, '.');
    assert(name[id.len() as int] == '.');
    assert(dot < last);
    assert(without_rotation(name) == name);
    assert(name.subrange(name.len() - suffix.len(), name.len() as int) =~= suffix);
    assert(name.take(name.len() - suffix.len()) =~= id);
    assert(name.len() >= 4);
    let tail4 = name.subrange(name.len() - 4, name.len() as int);
    assert(tail4[3] == name[last] && tail4[1] == name[last - 2] && tail4[2] == name[last - 1]);
    if name.len() >= 5 {
        let tail5 = name.subrange(name.len() - 5, name.len() as int);
        assert(tail5[4] == name[last] && tail5[0] == name[last - 4]);
    }
    if name.len() >= 6 {
        let tail6 = name.subrange(name.len() - 6, name.len() as int);
        assert(tail6[5] == name[last]);
    }
    if name.len() >= 11 {
        let tail11 = name.subrange(name.len() - 11, name.len() as int);
        assert(tail11[10] == name[last]);
    }
    if name.len() >= 12 {
        let tail12 = name.subrange(name.len() - 12, name.len() as int);
        assert(tail12[11] == name[last]);
    }
    if suffix == ".vsock"@ {
        assert(name[last - 4] == 'v');
    }
}

/// The files of an instance lie in the runtime's directory, each under the
/// instance's id and an ending of its own; the sockets of its shares are told apart
/// by their numbers, and a volume that is kept by name lies among the volumes, below
/// its namespace.
pub proof fn law_instance_files_lie_in_the_directory(
    l: &CloudHypervisorLifecycle,
    id: &str,
    idx: usize,
    namespace: &str,
    volume: &str,
    socket: String,
    disk: String,
    iso: String,
    console: String,
    vsock: String,
    shares: String,
    share: String,
    named: String,
)
    requires
        call_ensures(CloudHypervisorLifecycle::socket_path, (l, id), socket),
        call_ensures(CloudHypervisorLifecycle::instance_image_path, (l, id), disk),
        call_ensures(CloudHypervisorLifecycle::cidata_iso_path, (l, id), iso),
        call_ensures(CloudHypervisorLifecycle::console_log_path, (l, id), console),
        call_ensures(CloudHypervisorLifecycle::vsock_path, (l, id), vsock),
        call_ensures(CloudHypervisorLifecycle::instance_share_dir, (l, id), shares),
        call_ensures(CloudHypervisorLifecycle::virtiofs_socket_path, (l, id, idx), share),
        call_ensures(CloudHypervisorLifecycle::named_volume_dir, (l, namespace, volume), named),
        id@.len() > 0 && id@[0] != '/',
        l.config.socket_dir@.len() > 0 && l.config.socket_dir@.last() != '/',
        namespace@.len() > 0 && namespace@[0] != '/' && namespace@.last() != '/',
        volume@.len() > 0 && volume@[0] != '/',
    ensures
        ({
            let base = l.config.socket_dir@ + "/"@ + id@;
            &&& socket@ == base + ".sock"@
            &&& disk@ == base + ".raw"@
            &&& iso@ == base + ".cidata.iso"@
            &&& console@ == base + ".console.log"@
            &&& vsock@ == base + ".vsock"@
            &&& shares@ == base + ".shares"@
            &&& share@ == base + ".virtiofs-"@ + decimal(idx as nat) + ".sock"@
            &&& named@ == l.config.socket_dir@ + "/volumes/"@ + namespace@ + "/"@ + volume@
        }),
{
    reveal_strlit("/");
    reveal_strlit("volumes");
    reveal_strlit("/volumes/");
    let dir = l.config.socket_dir@;
    let base = dir + "/"@ + id@;
    assert(socket@ =~= base + ".sock"@);
    assert(disk@ =~= base + ".raw"@);
    assert(iso@ =~= base + ".cidata.iso"@);
    assert(console@ =~= base + ".console.log"@);
    assert(vsock@ =~= base + ".vsock"@);
    assert(shares@ =~= base + ".shares"@);
    assert(share@ =~= base + ".virtiofs-"@ + decimal(idx as nat) + ".sock"@);
    let volumes = dir + "/"@ + "volumes"@;
    assert(volumes.last() == "volumes"@.last());
    assert("/volumes/"@ =~= "/"@ + "volumes"@ + "/"@);
    let space = volumes + "/"@ + namespace@;
    assert(space.last() == namespace@.last());
    assert(named@ =~= dir + "/volumes/"@ + namespace@ + "/"@ + volume@);
}

/// A deployment has left an instance behind where a file, at place `at`, begins with
/// the deployment's prefix and leads back to that instance; no instance is listed
/// twice.
pub proof fn law_left_files_betray_their_instance(
    names: &Vec<String>,
    at: int,
    name: &str,
    deployment_id: &str,
    prefix: String,
    owner: Option<String>,
    r: Vec<String>,
)
    requires
        cuts_cleanly(deployment_id@, 8),
        0 <= at < names@.len(),
        name@ == names@[at]@,
        call_ensures(CloudHypervisorLifecycle::deployment_prefix, (deployment_id,), prefix),
        call_ensures(instance_of_file, (name,), owner),
        call_ensures(orphaned_instances, (names, deployment_id), r),
        prefix@.is_prefix_of(name@),
        owner is Some,
    ensures
        strs(r@).contains(owner->0@),
        strs(r@).no_duplicates(),
{
    let id = owner->0@;
    assert(file_belongs(names@[at]@, instance_prefix(deployment_id@), id));
    assert(left_files(names@, instance_prefix(deployment_id@), id));
}

/// An instance that is listed as left behind is one that some file leads back to.
pub proof fn law_left_instance_has_a_file(
    names: &Vec<String>,
    deployment_id: &str,
    prefix: String,
    r: Vec<String>,
    id: Seq<char>,
) -> (at: int)
    requires
        cuts_cleanly(deployment_id@, 8),
        call_ensures(CloudHypervisorLifecycle::deployment_prefix, (deployment_id,), prefix),
        call_ensures(orphaned_instances, (names, deployment_id), r),
        strs(r@).contains(id),
    ensures
        0 <= at < names@.len(),
        prefix@.is_prefix_of(names@[at]@),
        forall|name: &str, owner: Option<String>|
            name@ == names@[at]@ && #[trigger] call_ensures(instance_of_file, (name,), owner)
                ==> opt_str(owner) == Some(id),
{
    assert(left_files(names@, instance_prefix(deployment_id@), id));
    choose|i: int|
        0 <= i < names@.len() && #[trigger] file_belongs(
            names@[i]@,
            instance_prefix(deployment_id@),
            id,
        )
}

} // verus!
