//! Finding the VMM processes of a host: which of them serve which control
//! socket, and which interfaces they use.
use vstd::prelude::*;
use vstd::utf8::*;
use crate::firecracker::lifecycle::machine_file;
use crate::foreign::utf8_strict;
use crate::host_net::{InstanceNet, slot_tap, subnet_slot};
use crate::text::{chars_of, ends, find_last, first_pos, last_pos, lemma_encode_concat, lemma_first_pos, lemma_last_pos, opt_str, parse_unsigned, same, string_of, strip_end, strs, unsigned_value, without_suffix};

verus! {

// ---------------------------------------------------------------------------
// Command lines
// ---------------------------------------------------------------------------

/// Position of the first zero byte; the length where there is none.
pub open spec fn first_nul(bytes: Seq<u8>) -> int
    decreases bytes.len(),
{
    if bytes.len() == 0 || bytes[0] == 0 {
        0
    } else {
        1 + first_nul(bytes.skip(1))
    }
}

/// The arguments of a process: what stands between the zero bytes.
pub open spec fn arguments(cmdline: Seq<u8>) -> Seq<Seq<u8>>
    decreases cmdline.len(),
{
    let p = first_nul(cmdline);
    if 0 <= p < cmdline.len() {
        seq![cmdline.take(p)] + arguments(cmdline.skip(p + 1))
    } else {
        seq![cmdline]
    }
}

/// Nothing before position `n` is zero, so the first zero byte is from there
/// on.
proof fn lemma_first_nul(bytes: Seq<u8>, n: int)
    requires
        0 <= n <= bytes.len(),
        forall|j: int| 0 <= j < n ==> bytes[j] != 0,
    ensures
        n <= first_nul(bytes) <= bytes.len(),
        n < bytes.len() && bytes[n] == 0 ==> first_nul(bytes) == n,
        n == bytes.len() ==> first_nul(bytes) == n,
    decreases bytes.len(),
{
    if bytes.len() > 0 {
        let rest = bytes.skip(1);
        let m = if n == 0 {
            0
        } else {
            n - 1
        };
        assert forall|j: int| 0 <= j < m implies rest[j] != 0 by {
            assert(rest[j] == bytes[j + 1]);
        }
        lemma_first_nul(rest, m);
    }
}

/// The contents of a list of byte strings.
pub open spec fn byte_views(list: Seq<Vec<u8>>) -> Seq<Seq<u8>> {
    list.map_values(|v: Vec<u8>| v@)
}

/// A copy of a part of some bytes.
fn copy_bytes(bytes: &[u8], from: usize, to: usize) -> (r: Vec<u8>)
    requires
        from <= to <= bytes@.len(),
    ensures
        r@ == bytes@.subrange(from as int, to as int),
{
    let mut out: Vec<u8> = Vec::new();
    let mut i: usize = from;
    assert(out@ =~= bytes@.subrange(from as int, from as int));
    while i < to
        invariant
            from <= i <= to <= bytes@.len(),
            out@ == bytes@.subrange(from as int, i as int),
        decreases to - i,
    {
        out.push(bytes[i]);
        assert(bytes@.subrange(from as int, i + 1) =~= bytes@.subrange(from as int, i as int).push(
            bytes@[i as int],
        ));
        i += 1;
    }
    out
}

/// The arguments of a process.
pub fn split_arguments(cmdline: &[u8]) -> (r: Vec<Vec<u8>>)
    ensures
        byte_views(r@) == arguments(cmdline@),
        r.len() > 0,
{
    let mut out: Vec<Vec<u8>> = Vec::new();
    let mut from: usize = 0;
    let ghost all = cmdline@;
    assert(all.skip(0) =~= all);
    assert(byte_views(out@) + arguments(all) =~= arguments(all));
    loop
        invariant
            all == cmdline@,
            from <= all.len(),
            arguments(all) == byte_views(out@) + arguments(all.skip(from as int)),
        decreases all.len() - from,
    {
        let mut p: usize = from;
        while p < cmdline.len() && cmdline[p] != 0
            invariant
                all == cmdline@,
                from <= p <= all.len(),
                forall|j: int| from <= j < p ==> all[j] != 0,
            decreases all.len() - p,
        {
            p += 1;
        }
        let ghost rest = all.skip(from as int);
        let ghost before = out@;
        proof {
            assert forall|j: int| 0 <= j < p - from implies rest[j] != 0 by {
                assert(rest[j] == all[from + j]);
            }
            lemma_first_nul(rest, p - from);
        }
        let piece = copy_bytes(cmdline, from, p);
        assert(piece@ =~= rest.take(p - from));
        out.push(piece);
        assert(byte_views(out@) =~= byte_views(before).push(piece@));
        if p == cmdline.len() {
            assert(rest.take(p - from) =~= rest);
            assert(byte_views(out@) =~= arguments(all));
            return out;
        }
        assert(rest.skip(p - from + 1) =~= all.skip(p + 1));
        assert(byte_views(out@) + arguments(all.skip(p + 1)) =~= byte_views(before) + (seq![piece@]
            + arguments(all.skip(p + 1))));
        from = p + 1;
    }
}

/// Whether some bytes end with others.
fn bytes_end_with(bytes: &Vec<u8>, suffix: &[u8]) -> (r: bool)
    ensures
        r == suffix@.is_suffix_of(bytes@),
{
    let n: usize = bytes.len();
    let m: usize = suffix.len();
    if m > n {
        return false;
    }
    let mut i: usize = 0;
    while i < m
        invariant
            n == bytes@.len(),
            m == suffix@.len(),
            m <= n,
            i <= m,
            forall|j: int| 0 <= j < i ==> bytes@[n - m + j] == suffix@[j],
        decreases m - i,
    {
        if bytes[n - m + i] != suffix[i] {
            assert(bytes@.subrange(n - m, n as int)[i as int] != suffix@[i as int]);
            return false;
        }
        i += 1;
    }
    assert(bytes@.subrange(n - m, n as int) =~= suffix@);
    true
}

/// Whether a program's name is that of the VMM.
pub open spec fn is_vmm(program: Seq<u8>) -> bool {
    encode_utf8("firecracker"@).is_suffix_of(program)
}

/// The text of an argument, where it is UTF-8 and names a socket.
pub open spec fn socket_argument(arg: Seq<u8>) -> Option<Seq<char>> {
    if valid_utf8(arg) && ".sock"@.is_suffix_of(decode_utf8(arg)) {
        Some(decode_utf8(arg))
    } else {
        None
    }
}

/// The first argument that names a socket.
pub open spec fn first_socket(args: Seq<Seq<u8>>) -> Option<Seq<char>>
    decreases args.len(),
{
    if args.len() == 0 {
        None
    } else if socket_argument(args[0]) is Some {
        socket_argument(args[0])
    } else {
        first_socket(args.skip(1))
    }
}

/// The control socket of the VMM that a command line belongs to.
pub open spec fn cmdline_socket(cmdline: Seq<u8>) -> Option<Seq<char>> {
    let args = arguments(cmdline);
    if is_vmm(args[0]) {
        first_socket(args.skip(1))
    } else {
        None
    }
}

/// The control socket of the VMM that a command line belongs to, with its
/// directory. `None` for another program, and for a VMM without one.
pub fn socket_path_from_cmdline(cmdline: &[u8]) -> (r: Option<String>)
    ensures
        opt_str(r) == cmdline_socket(cmdline@),
{
    let args = split_arguments(cmdline);
    let ghost all = arguments(cmdline@);
    assert(all[0] == args@[0]@);
    if !bytes_end_with(&args[0], "firecracker".as_bytes()) {
        return None;
    }
    let mut i: usize = 1;
    while i < args.len()
        invariant
            1 <= i <= args.len(),
            all == byte_views(args@),
            all == arguments(cmdline@),
            is_vmm(all[0]),
            first_socket(all.skip(1)) == first_socket(all.skip(i as int)),
        decreases args.len() - i,
    {
        assert(all.skip(i as int)[0] == args@[i as int]@);
        assert(all.skip(i as int).skip(1) =~= all.skip(i + 1));
        let copy = copy_bytes(args[i].as_slice(), 0, args[i].len());
        assert(copy@ =~= args@[i as int]@);
        if let Some(text) = utf8_strict(copy) {
            if ends(text.as_str(), ".sock") {
                return Some(text);
            }
        }
        i += 1;
    }
    None
}

/// What stands behind the last slash of a path.
pub open spec fn base_name(path: Seq<char>) -> Seq<char> {
    path.skip(last_pos(path, '/') + 1)
}

/// The instance whose control socket is at this path.
pub open spec fn socket_owner(path: Seq<char>) -> Option<Seq<char>> {
    match without_suffix(path, ".sock"@) {
        Some(stem) => Some(base_name(stem)),
        None => None,
    }
}

/// The instance of the VMM that a command line belongs to.
pub open spec fn cmdline_instance(cmdline: Seq<u8>) -> Option<Seq<char>> {
    match cmdline_socket(cmdline) {
        Some(path) => socket_owner(path),
        None => None,
    }
}

/// The instance of the VMM that a command line belongs to: its control socket's
/// name, without the directory and the suffix.
pub fn instance_id_from_cmdline(cmdline: &[u8]) -> (r: Option<String>)
    ensures
        opt_str(r) == cmdline_instance(cmdline@),
{
    let path = match socket_path_from_cmdline(cmdline) {
        Some(p) => p,
        None => return None,
    };
    let stem = match strip_end(path.as_str(), ".sock") {
        Some(s) => s,
        None => return None,
    };
    let text = chars_of(stem.as_str());
    let from: usize = match find_last(&text, '/') {
        Some(p) => p + 1,
        None => 0,
    };
    let id = string_of(&text, from, text.len());
    assert(id@ =~= base_name(stem@));
    Some(id)
}

/// Whether a command line is that of a VMM with exactly this argument.
pub open spec fn cmdline_has(cmdline: Seq<u8>, argument: Seq<u8>) -> bool {
    let args = arguments(cmdline);
    is_vmm(args[0]) && args.skip(1).contains(argument)
}

/// Whether some bytes are equal.
fn same_bytes(a: &Vec<u8>, b: &[u8]) -> (r: bool)
    ensures
        r == (a@ == b@),
{
    if a.len() != b.len() {
        return false;
    }
    let mut i: usize = 0;
    while i < a.len()
        invariant
            i <= a.len(),
            a@.len() == b@.len(),
            forall|j: int| 0 <= j < i ==> a@[j] == b@[j],
        decreases a.len() - i,
    {
        if a[i] != b[i] {
            return false;
        }
        i += 1;
    }
    assert(a@ =~= b@);
    true
}

/// Whether a command line is that of a VMM with exactly this control socket. A
/// longer path that begins with it is another one.
pub fn cmdline_matches_socket(cmdline: &[u8], socket_path: &str) -> (r: bool)
    ensures
        r == cmdline_has(cmdline@, encode_utf8(socket_path@)),
{
    let args = split_arguments(cmdline);
    let ghost all = arguments(cmdline@);
    let ghost wanted = encode_utf8(socket_path@);
    assert(all[0] == args@[0]@);
    if !bytes_end_with(&args[0], "firecracker".as_bytes()) {
        return false;
    }
    let bytes = socket_path.as_bytes();
    let mut i: usize = 1;
    while i < args.len()
        invariant
            1 <= i <= args.len(),
            bytes@ == wanted,
            all == byte_views(args@),
            all == arguments(cmdline@),
            wanted == encode_utf8(socket_path@),
            is_vmm(all[0]),
            forall|j: int| 1 <= j < i ==> #[trigger] all[j] != wanted,
        decreases args.len() - i,
    {
        assert(all[i as int] == args@[i as int]@);
        if same_bytes(&args[i], bytes) {
            assert(all.skip(1)[i - 1] == wanted);
            return true;
        }
        i += 1;
    }
    assert forall|j: int| 0 <= j < all.skip(1).len() implies all.skip(1)[j] != wanted by {
        assert(all.skip(1)[j] == all[j + 1]);
    }
    false
}

// ---------------------------------------------------------------------------
// The processes of a host
// ---------------------------------------------------------------------------

/// An entry of the process directory: its name, and the command line where it
/// could be read.
#[derive(Debug)]
pub struct ProcessEntry {
    pub name: String,
    pub cmdline: CmdlineRead,
}

/// What came of reading a process's command line.
#[derive(Debug)]
pub enum CmdlineRead {
    Text(Vec<u8>),
    /// The process has ended.
    Gone,
    /// It could not be read for another reason.
    Denied,
}

/// The number of a process, where the entry is one.
pub open spec fn process_id(name: Seq<char>) -> Option<u32> {
    match unsigned_value(name) {
        Some(n) => if n <= u32::MAX {
            Some(n as u32)
        } else {
            None
        },
        None => None,
    }
}

/// The number of a process, where the entry is one.
pub fn parse_pid(name: &str) -> (r: Option<u32>)
    ensures
        r == process_id(name@),
{
    match parse_unsigned(name, u32::MAX as u64) {
        Some(n) => Some(n as u32),
        None => None,
    }
}

/// Whether an entry is the VMM that serves this control socket.
pub open spec fn entry_serves(e: ProcessEntry, socket: Seq<u8>) -> bool {
    match e.cmdline {
        CmdlineRead::Text(c) => process_id(e.name@) is Some && cmdline_has(c@, socket),
        _ => false,
    }
}

/// The first process that is the VMM that serves this control socket.
pub open spec fn serving_pid(entries: Seq<ProcessEntry>, socket: Seq<u8>) -> Option<u32>
    decreases entries.len(),
{
    if entries.len() == 0 {
        None
    } else if entry_serves(entries[0], socket) {
        process_id(entries[0].name@)
    } else {
        serving_pid(entries.skip(1), socket)
    }
}

/// The process that is the VMM that serves this control socket.
pub fn find_pid_by_socket(entries: &Vec<ProcessEntry>, socket_path: &str) -> (r: Option<u32>)
    ensures
        r == serving_pid(entries@, encode_utf8(socket_path@)),
{
    let ghost socket = encode_utf8(socket_path@);
    let mut i: usize = 0;
    assert(entries@.skip(0) =~= entries@);
    while i < entries.len()
        invariant
            i <= entries.len(),
            socket == encode_utf8(socket_path@),
            serving_pid(entries@, socket) == serving_pid(entries@.skip(i as int), socket),
        decreases entries.len() - i,
    {
        let ghost rest = entries@.skip(i as int);
        assert(rest[0] == entries@[i as int]);
        assert(rest.skip(1) =~= entries@.skip(i + 1));
        if let CmdlineRead::Text(c) = &entries[i].cmdline {
            if let Some(pid) = parse_pid(entries[i].name.as_str()) {
                if cmdline_matches_socket(c.as_slice(), socket_path) {
                    return Some(pid);
                }
            }
        }
        i += 1;
    }
    None
}

/// The control socket that an entry serves, where it is a VMM.
pub open spec fn entry_socket(e: ProcessEntry) -> Option<Seq<char>> {
    match e.cmdline {
        CmdlineRead::Text(c) => if process_id(e.name@) is Some {
            cmdline_socket(c@)
        } else {
            None
        },
        _ => None,
    }
}

/// The control sockets that are served by a live VMM, in the order of the
/// processes.
pub open spec fn served_sockets(entries: Seq<ProcessEntry>) -> Seq<Seq<char>>
    decreases entries.len(),
{
    if entries.len() == 0 {
        seq![]
    } else {
        match entry_socket(entries.last()) {
            Some(path) => served_sockets(entries.drop_last()).push(path),
            None => served_sockets(entries.drop_last()),
        }
    }
}

/// The control sockets that are served by a live VMM.
pub fn live_socket_paths(entries: &Vec<ProcessEntry>) -> (r: Vec<String>)
    ensures
        strs(r@) == served_sockets(entries@),
{
    let mut out: Vec<String> = Vec::new();
    let mut i: usize = 0;
    assert(strs(out@) =~= served_sockets(entries@.take(0)));
    while i < entries.len()
        invariant
            i <= entries.len(),
            strs(out@) == served_sockets(entries@.take(i as int)),
        decreases entries.len() - i,
    {
        assert(entries@.take(i + 1).drop_last() =~= entries@.take(i as int));
        let ghost before = out@;
        if let CmdlineRead::Text(c) = &entries[i].cmdline {
            if parse_pid(entries[i].name.as_str()).is_some() {
                if let Some(path) = socket_path_from_cmdline(c.as_slice()) {
                    out.push(path);
                    assert(strs(out@) =~= strs(before).push(path@));
                }
            }
        }
        i += 1;
    }
    assert(entries@.take(entries.len() as int) =~= entries@);
    out
}

// ---------------------------------------------------------------------------
// Interfaces
// ---------------------------------------------------------------------------

/// The interface name of an instance.
pub open spec fn tap_of(id: Seq<char>) -> Seq<char> {
    slot_tap(subnet_slot(id))
}

/// Whether the instance `id`, other than the one that boots, owns an interface
/// name.
pub open spec fn owns_tap(id: Seq<char>, booting: Seq<char>, tap: Seq<char>) -> bool {
    id != booting && tap_of(id) == tap
}

/// Whether some of the instances, other than the one that boots, owns an interface
/// name.
pub open spec fn any_owns_tap(ids: Seq<String>, booting: Seq<char>, tap: Seq<char>) -> bool {
    exists|i: int| 0 <= i < ids.len() && #[trigger] owns_tap(ids[i]@, booting, tap)
}

/// Whether an instance on disk, other than the one that boots, owns an
/// interface name.
pub fn is_tap_claimed(ids: &Vec<String>, booting: &str, tap_name: &str) -> (r: bool)
    ensures
        r == exists|i: int|
            0 <= i < ids.len() && #[trigger] owns_tap(ids@[i]@, booting@, tap_name@),
        r == any_owns_tap(ids@, booting@, tap_name@),
{
    let mut i: usize = 0;
    while i < ids.len()
        invariant
            i <= ids.len(),
            forall|j: int|
                0 <= j < i ==> !#[trigger] owns_tap(ids@[j]@, booting@, tap_name@),
        decreases ids.len() - i,
    {
        if !same(ids[i].as_str(), booting) {
            let net = InstanceNet::for_instance(ids[i].as_str());
            if same(net.tap_name.as_str(), tap_name) {
                assert(owns_tap(ids@[i as int]@, booting@, tap_name@));
                return true;
            }
        }
        i += 1;
    }
    false
}

/// Whether an entry may be a live VMM that uses an interface. A process that
/// cannot be looked at may be one; a process that has ended is not.
pub open spec fn entry_may_use(e: ProcessEntry, booting: Seq<char>, tap: Seq<char>) -> bool {
    process_id(e.name@) is Some && match e.cmdline {
        CmdlineRead::Text(c) => match cmdline_instance(c@) {
            Some(id) => owns_tap(id, booting, tap),
            None => false,
        },
        CmdlineRead::Gone => false,
        CmdlineRead::Denied => true,
    }
}

/// Whether an entry may be a live VMM that uses an interface.
fn may_use_tap(entry: &ProcessEntry, tap_name: &str, booting: &str) -> (r: bool)
    ensures
        r == entry_may_use(*entry, booting@, tap_name@),
{
    if parse_pid(entry.name.as_str()).is_none() {
        return false;
    }
    match &entry.cmdline {
        CmdlineRead::Text(c) => match instance_id_from_cmdline(c.as_slice()) {
            Some(id) => {
                let net = InstanceNet::for_instance(id.as_str());
                !same(id.as_str(), booting) && same(net.tap_name.as_str(), tap_name)
            },
            None => false,
        },
        CmdlineRead::Gone => false,
        CmdlineRead::Denied => true,
    }
}

/// Whether some entry may be a live VMM that uses an interface.
pub open spec fn some_may_use(
    entries: Seq<ProcessEntry>,
    booting: Seq<char>,
    tap: Seq<char>,
) -> bool {
    exists|i: int| 0 <= i < entries.len() && #[trigger] entry_may_use(entries[i], booting, tap)
}

/// Whether a live VMM other than the one that boots may use an interface.
/// `None` stands for a process directory that cannot be read: then one may.
pub fn live_vm_uses_tap(
    entries: &Option<Vec<ProcessEntry>>,
    tap_name: &str,
    booting: &str,
) -> (r: bool)
    ensures
        r == match *entries {
            Some(list) => some_may_use(list@, booting@, tap_name@),
            None => true,
        },
{
    let list = match entries {
        Some(l) => l,
        None => return true,
    };
    let mut i: usize = 0;
    while i < list.len()
        invariant
            i <= list.len(),
            *entries == Some(*list),
            forall|j: int|
                0 <= j < i ==> !#[trigger] entry_may_use(list@[j], booting@, tap_name@),
        decreases list.len() - i,
    {
        if may_use_tap(&list[i], tap_name, booting) {
            assert(entry_may_use(list@[i as int], booting@, tap_name@));
            assert(some_may_use(list@, booting@, tap_name@));
            return true;
        }
        i += 1;
    }
    false
}

/// Whether a leftover interface is removed before an instance boots: it is
/// there, no instance on disk owns it, and no live VMM may use it.
pub fn reclaims_tap(exists: bool, claimed: bool, in_use: bool) -> (r: bool)
    ensures
        r == (exists && !claimed && !in_use),
{
    exists && !claimed && !in_use
}

// ---------------------------------------------------------------------------
// Laws
// ---------------------------------------------------------------------------

/// An instance's name read back from its control socket's path is the
/// instance's id, whatever the directory.
pub proof fn law_socket_names_its_instance(dir: Seq<char>, id: Seq<char>)
    requires
        !id.contains('/'),
    ensures
        socket_owner(machine_file(dir, id, ".sock"@)) == Some(id),
{
    reveal_strlit(".sock");
    reveal_strlit("/");
    let path = machine_file(dir, id, ".sock"@);
    let stem = dir + "/"@ + id;
    assert(path =~= stem + ".sock"@);
    assert(path.subrange(path.len() - 5, path.len() as int) =~= ".sock"@);
    assert(path.take(path.len() - 5) =~= stem);
    lemma_last_pos(stem, '/');
    let k = dir.len() as int;
    assert(stem[k] == '/');
    assert forall|j: int| k < j < stem.len() implies stem[j] != '/' by {
        assert(stem[j] == id[j - k - 1]);
        assert(id.contains(id[j - k - 1]));
    }
    assert(last_pos(stem, '/') == k);
    assert(base_name(stem) =~= id);
}

/// The command line of a program that is given a control socket: the program,
/// the name of the argument and the socket's path, a zero byte behind each.
pub open spec fn command_line(program: Seq<u8>, socket: Seq<char>) -> Seq<u8> {
    program + seq![0u8] + encode_utf8("--api-sock"@) + seq![0u8] + encode_utf8(socket) + seq![0u8]
}

/// The arguments of two command lines with a zero byte between them.
proof fn lemma_arguments_concat(x: Seq<u8>, y: Seq<u8>)
    ensures
        arguments(x + seq![0u8] + y) == arguments(x) + arguments(y),
    decreases x.len(),
{
    let all = x + seq![0u8] + y;
    lemma_first_nul_of(x);
    let p = first_nul(x);
    assert forall|j: int| 0 <= j < p implies all[j] != 0 by {
        assert(all[j] == x[j]);
    }
    lemma_first_nul(all, p);
    assert(all[p] == 0);
    assert(first_nul(all) == p);
    if p < x.len() {
        let rest = x.skip(p + 1);
        assert(all.skip(p + 1) =~= rest + seq![0u8] + y);
        assert(all.take(p) =~= x.take(p));
        lemma_arguments_concat(rest, y);
        assert(arguments(all) =~= arguments(x) + arguments(y));
    } else {
        assert(all.skip(p + 1) =~= y);
        assert(all.take(p) =~= x);
        assert(arguments(all) =~= arguments(x) + arguments(y));
    }
}

/// What the first zero byte is: nothing before it is zero.
proof fn lemma_first_nul_of(bytes: Seq<u8>)
    ensures
        0 <= first_nul(bytes) <= bytes.len(),
        forall|j: int| 0 <= j < first_nul(bytes) ==> bytes[j] != 0,
        first_nul(bytes) < bytes.len() ==> bytes[first_nul(bytes)] == 0,
    decreases bytes.len(),
{
    if bytes.len() > 0 && bytes[0] != 0 {
        let rest = bytes.skip(1);
        lemma_first_nul_of(rest);
        assert forall|j: int| 0 <= j < first_nul(bytes) implies bytes[j] != 0 by {
            if j > 0 {
                assert(rest[j - 1] == bytes[j]);
            }
        }
    }
}

/// Bytes without a zero are one argument.
proof fn lemma_one_argument(bytes: Seq<u8>)
    requires
        !bytes.contains(0u8),
    ensures
        arguments(bytes) == seq![bytes],
{
    lemma_first_nul_of(bytes);
    let p = first_nul(bytes);
    if p < bytes.len() {
        assert(bytes.contains(bytes[p]));
    }
}

/// A character but the zero character is encoded without a zero byte, and the
/// zero character as one.
proof fn lemma_scalar_bytes(c: char)
    ensures
        c != '\0' ==> !encode_scalar(c as u32).contains(0u8),
        c == '\0' ==> encode_scalar(c as u32) == seq![0u8],
{
    let v = c as u32;
    assert(v == 0 ==> (v & 0x7f) as u8 == 0u8) by (bit_vector);
    assert(0 < v <= 0x7f ==> (v & 0x7f) as u8 != 0u8) by (bit_vector);
    let bytes = encode_scalar(v);
    if v == 0 {
        assert(bytes =~= seq![0u8]);
    } else if bytes.contains(0u8) {
        let i = choose|i: int| 0 <= i < bytes.len() && bytes[i] == 0u8;
        lemma_no_zero((v & 0x3f) as u8);
        lemma_no_zero(((v >> 6) & 0x3f) as u8);
        lemma_no_zero(((v >> 12) & 0x3f) as u8);
        lemma_no_zero(((v >> 6) & 0x1f) as u8);
        lemma_no_zero(((v >> 12) & 0x0f) as u8);
        lemma_no_zero(((v >> 18) & 0x7) as u8);
        assert(bytes[i] != 0u8);
    }
}

/// A byte with one of the marks of the encoding is not zero.
proof fn lemma_no_zero(x: u8)
    ensures
        0x80u8 | x != 0,
        0xc0u8 | x != 0,
        0xe0u8 | x != 0,
        0xf0u8 | x != 0,
{
    assert(0x80u8 | x != 0 && 0xc0u8 | x != 0 && 0xe0u8 | x != 0 && 0xf0u8 | x != 0)
        by (bit_vector);
}

/// A text without the zero character is encoded without a zero byte.
proof fn lemma_text_bytes(s: Seq<char>)
    requires
        !s.contains('\0'),
    ensures
        !encode_utf8(s).contains(0u8),
    decreases s.len(),
{
    if s.len() > 0 {
        let rest = s.drop_first();
        assert(s.contains(s[0]));
        lemma_scalar_bytes(s[0]);
        assert(!rest.contains('\0')) by {
            if rest.contains('\0') {
                let i = choose|i: int| 0 <= i < rest.len() && rest[i] == '\0';
                assert(s[i + 1] == '\0');
            }
        }
        lemma_text_bytes(rest);
        let head = encode_scalar(s[0] as u32);
        let tail = encode_utf8(rest);
        if encode_utf8(s).contains(0u8) {
            let i = choose|i: int| 0 <= i < encode_utf8(s).len() && encode_utf8(s)[i] == 0u8;
            if i < head.len() {
                assert(head.contains(head[i]));
            } else {
                assert(tail.contains(tail[i - head.len()]));
            }
        }
    }
}

/// An argument with the path of an instance's control socket is found, and names
/// the instance.
proof fn lemma_socket_is_found(dir: Seq<char>, id: Seq<char>, more: Seq<Seq<u8>>)
    requires
        !id.contains('/'),
        !id.contains('\0'),
        forall|i: int|
            0 <= i < dir.len() && dir[i] == '\0' ==> !".sock"@.is_suffix_of(#[trigger] dir.take(i)),
    ensures
        ({
            let path = encode_utf8(machine_file(dir, id, ".sock"@));
            first_socket(arguments(path) + more) matches Some(found) && socket_owner(found) == Some(
                id,
            )
        }),
    decreases dir.len(),
{
    reveal_strlit(".sock");
    reveal_strlit("/");
    let path = machine_file(dir, id, ".sock"@);
    let p = first_pos(dir, '\0');
    lemma_first_pos(dir, '\0');
    if p == dir.len() {
        assert(!path.contains('\0')) by {
            if path.contains('\0') {
                let i = choose|i: int| 0 <= i < path.len() && path[i] == '\0';
                let k = dir.len() as int + 1;
                if k <= i < k + id.len() {
                    assert(id.contains(id[i - k]));
                }
            }
        }
        lemma_text_bytes(path);
        lemma_one_argument(encode_utf8(path));
        encode_utf8_valid_utf8(path);
        encode_utf8_decode_utf8(path);
        assert(path.subrange(path.len() - 5, path.len() as int) =~= ".sock"@);
        assert((arguments(encode_utf8(path)) + more)[0] == encode_utf8(path));
        law_socket_names_its_instance(dir, id);
    } else {
        let head = dir.take(p);
        let tail = dir.skip(p + 1);
        let rest = machine_file(tail, id, ".sock"@);
        assert(path =~= head + seq!['\0'] + rest);
        lemma_encode_concat(head + seq!['\0'], rest);
        lemma_encode_concat(head, seq!['\0']);
        lemma_scalar_bytes('\0');
        let zero = seq!['\0'];
        assert(zero.drop_first() =~= seq![]);
        assert(encode_utf8(zero.drop_first()) =~= seq![]);
        assert(zero[0] == '\0');
        assert(encode_utf8(zero) == encode_scalar(zero[0] as u32) + encode_utf8(zero.drop_first()));
        assert(encode_utf8(zero) =~= seq![0u8]);
        assert(!head.contains('\0')) by {
            if head.contains('\0') {
                let i = choose|i: int| 0 <= i < head.len() && head[i] == '\0';
                assert(dir[i] == '\0');
            }
        }
        lemma_text_bytes(head);
        lemma_one_argument(encode_utf8(head));
        lemma_arguments_concat(encode_utf8(head), encode_utf8(rest));
        encode_utf8_decode_utf8(head);
        assert(socket_argument(encode_utf8(head)) is None);
        assert forall|i: int| 0 <= i < tail.len() && tail[i] == '\0' implies !".sock"@.is_suffix_of(
            #[trigger] tail.take(i),
        ) by {
            let whole = dir.take(p + 1 + i);
            let part = tail.take(i);
            assert(dir[p + 1 + i] == '\0');
            if ".sock"@.is_suffix_of(part) {
                assert(whole.subrange(whole.len() - 5, whole.len() as int) =~= part.subrange(
                    part.len() - 5,
                    part.len() as int,
                ));
            }
        }
        lemma_socket_is_found(tail, id, more);
        let all = arguments(encode_utf8(path)) + more;
        assert(all[0] == encode_utf8(head));
        assert(all.skip(1) =~= arguments(encode_utf8(rest)) + more);
    }
}

/// The command line of a VMM that serves an instance's control socket names the
/// instance, whatever the directory, unless a zero character in the directory's
/// name cuts off something that itself looks like a socket. Another program's
/// command line names none.
pub proof fn law_command_line_names_its_instance(
    program: Seq<u8>,
    dir: Seq<char>,
    id: Seq<char>,
)
    requires
        !program.contains(0u8),
        !id.contains('/'),
        !id.contains('\0'),
        forall|i: int|
            0 <= i < dir.len() && dir[i] == '\0' ==> !".sock"@.is_suffix_of(#[trigger] dir.take(i)),
    ensures
        cmdline_instance(command_line(program, machine_file(dir, id, ".sock"@))) == if is_vmm(
            program,
        ) {
            Some(id)
        } else {
            None
        },
{
    reveal_strlit(".sock");
    reveal_strlit("--api-sock");
    let flag = "--api-sock"@;
    let socket = encode_utf8(machine_file(dir, id, ".sock"@));
    let cmdline = command_line(program, machine_file(dir, id, ".sock"@));
    let empty = Seq::<u8>::empty();
    lemma_text_bytes(flag);
    lemma_one_argument(program);
    lemma_one_argument(encode_utf8(flag));
    lemma_one_argument(empty);
    let from_flag = encode_utf8(flag) + seq![0u8] + (socket + seq![0u8] + empty);
    assert(cmdline =~= program + seq![0u8] + from_flag);
    lemma_arguments_concat(program, from_flag);
    lemma_arguments_concat(encode_utf8(flag), socket + seq![0u8] + empty);
    lemma_arguments_concat(socket, empty);
    let args = arguments(cmdline);
    assert(args[0] == program);
    assert(args.skip(1) =~= seq![encode_utf8(flag)] + (arguments(socket) + seq![empty]));
    assert(args.skip(1).skip(1) =~= arguments(socket) + seq![empty]);
    encode_utf8_decode_utf8(flag);
    assert(!".sock"@.is_suffix_of(flag)) by {
        if ".sock"@.is_suffix_of(flag) {
            assert(flag.subrange(flag.len() - 5, flag.len() as int)[0] == '.');
        }
    }
    assert(args.skip(1)[0] == encode_utf8(flag));
    lemma_socket_is_found(dir, id, seq![empty]);
}

/// A command line whose program is not the VMM, or without a later argument that
/// names a socket, names no instance.
pub proof fn law_no_socket_means_no_instance(cmdline: Seq<u8>)
    requires
        !is_vmm(arguments(cmdline)[0]) || forall|i: int|
            1 <= i < arguments(cmdline).len() ==> socket_argument(
                #[trigger] arguments(cmdline)[i],
            ) is None,
    ensures
        cmdline_instance(cmdline) is None,
{
    if is_vmm(arguments(cmdline)[0]) {
        let rest = arguments(cmdline).skip(1);
        assert forall|i: int| 0 <= i < rest.len() implies socket_argument(
            #[trigger] rest[i],
        ) is None by {
            assert(rest[i] == arguments(cmdline)[i + 1]);
        }
        lemma_no_socket(rest);
    }
}

/// Where no argument names a socket, none is found.
proof fn lemma_no_socket(args: Seq<Seq<u8>>)
    requires
        forall|i: int| 0 <= i < args.len() ==> socket_argument(#[trigger] args[i]) is None,
    ensures
        first_socket(args) is None,
    decreases args.len(),
{
    if args.len() > 0 {
        let rest = args.skip(1);
        assert forall|i: int| 0 <= i < rest.len() implies socket_argument(
            #[trigger] rest[i],
        ) is None by {
            assert(rest[i] == args[i + 1]);
        }
        lemma_no_socket(rest);
    }
}

/// The interface of a live VMM that can be looked at is never taken for a
/// leftover.
pub proof fn law_live_tap_is_kept(
    entries: Seq<ProcessEntry>,
    i: int,
    cmdline: Vec<u8>,
    id: Seq<char>,
    booting: Seq<char>,
)
    requires
        0 <= i < entries.len(),
        process_id(entries[i].name@) is Some,
        entries[i].cmdline == CmdlineRead::Text(cmdline),
        cmdline_instance(cmdline@) == Some(id),
        id != booting,
    ensures
        some_may_use(entries, booting, tap_of(id)),
{
    assert(entry_may_use(entries[i], booting, tap_of(id)));
}

/// The process that serves a control socket is the first entry of the process
/// directory that is a number and whose command line is that of a VMM with this
/// very socket: an entry in front answers for itself, or is passed over.
pub proof fn law_first_serving_process_is_found(
    entries: &Vec<ProcessEntry>,
    more: &Vec<ProcessEntry>,
    front: ProcessEntry,
    name: &str,
    pid: Option<u32>,
    cmdline: &[u8],
    serves: bool,
    socket_path: &str,
    found: Option<u32>,
    after: Option<u32>,
)
    requires
        more@ == seq![front] + entries@,
        name@ == front.name@,
        call_ensures(parse_pid, (name,), pid),
        front.cmdline matches CmdlineRead::Text(c) ==> c@ == cmdline@,
        call_ensures(cmdline_matches_socket, (cmdline, socket_path), serves),
        call_ensures(find_pid_by_socket, (entries, socket_path), found),
        call_ensures(find_pid_by_socket, (more, socket_path), after),
    ensures
        entries@.len() == 0 ==> found is None,
        front.cmdline is Text && pid is Some && serves ==> after == pid,
        !(front.cmdline is Text && pid is Some && serves) ==> after == found,
{
    assert(more@[0] == front);
    assert(more@.skip(1) =~= entries@);
}

/// The sockets that are served are those of the VMMs among the processes, in
/// their order: one more entry adds its socket, or nothing.
pub proof fn law_served_sockets_are_those_of_vmms(
    entries: &Vec<ProcessEntry>,
    more: &Vec<ProcessEntry>,
    last: ProcessEntry,
    name: &str,
    pid: Option<u32>,
    cmdline: &[u8],
    socket: Option<String>,
    before: Vec<String>,
    after: Vec<String>,
)
    requires
        more@ == entries@.push(last),
        name@ == last.name@,
        call_ensures(parse_pid, (name,), pid),
        last.cmdline matches CmdlineRead::Text(c) ==> c@ == cmdline@,
        call_ensures(socket_path_from_cmdline, (cmdline,), socket),
        call_ensures(live_socket_paths, (entries,), before),
        call_ensures(live_socket_paths, (more,), after),
    ensures
        entries@.len() == 0 ==> before@.len() == 0,
        last.cmdline is Text && pid is Some && socket is Some ==> strs(after@) == strs(
            before@,
        ).push(socket->0@),
        !(last.cmdline is Text && pid is Some && socket is Some) ==> strs(after@) == strs(before@),
{
    assert(more@.drop_last() =~= entries@);
    assert(strs(before@).len() == before@.len());
}

/// An instance on disk, at place `at`, claims the interface name that it is given,
/// unless it is the one that boots.
pub proof fn law_claimed_interface_has_an_owner(
    ids: &Vec<String>,
    at: int,
    id: &str,
    net: InstanceNet,
    booting: &str,
    tap_name: &str,
    r: bool,
)
    requires
        0 <= at < ids@.len(),
        id@ == ids@[at]@,
        call_ensures(InstanceNet::for_instance, (id,), net),
        call_ensures(is_tap_claimed, (ids, booting, tap_name), r),
        id@ != booting@,
        net.tap_name@ == tap_name@,
    ensures
        r,
{
    assert(owns_tap(ids@[at]@, booting@, tap_name@));
}

/// An interface name that is claimed is the one that some instance on disk, other
/// than the one that boots, is given.
pub proof fn law_unowned_interface_is_free(
    ids: &Vec<String>,
    booting: &str,
    tap_name: &str,
    r: bool,
)
    requires
        call_ensures(is_tap_claimed, (ids, booting, tap_name), r),
        forall|i: int|
            #![trigger ids@[i]]
            0 <= i < ids@.len() && ids@[i]@ != booting@ ==> slot_tap(subnet_slot(ids@[i]@))
                != tap_name@,
    ensures
        !r,
{
    if r {
        let i = choose|i: int|
            0 <= i < ids@.len() && #[trigger] owns_tap(ids@[i]@, booting@, tap_name@);
        assert(ids@[i]@ != booting@);
    }
}

/// A leftover interface is removed exactly where it is there, no instance claims
/// it, and no process may be a live VMM that uses it. A process that cannot be
/// looked at, at place `at`, may be one; one that has ended is not; and a process
/// directory that cannot be read stands for one that may.
pub proof fn law_interface_in_use_is_kept(
    booting: &str,
    tap_name: &str,
    claimed: bool,
    entries: Vec<ProcessEntry>,
    at: int,
    name: &str,
    pid: Option<u32>,
    in_use: bool,
    unread: bool,
    there: bool,
    r: bool,
)
    requires
        0 <= at < entries@.len(),
        name@ == entries@[at].name@,
        call_ensures(parse_pid, (name,), pid),
        call_ensures(live_vm_uses_tap, (&Some(entries), tap_name, booting), in_use),
        call_ensures(live_vm_uses_tap, (&None, tap_name, booting), unread),
        call_ensures(reclaims_tap, (there, claimed, in_use), r),
    ensures
        r <==> there && !claimed && !in_use,
        unread,
        entries@[at].cmdline is Denied && pid is Some ==> in_use,
        in_use ==> exists|i: int|
            0 <= i < entries@.len() && !((#[trigger] entries@[i]).cmdline is Gone),
{
    let list = entries@;
    if list[at].cmdline is Denied && pid is Some {
        assert(entry_may_use(list[at], booting@, tap_name@));
    }
    if in_use {
        let i = choose|i: int|
            0 <= i < list.len() && #[trigger] entry_may_use(list[i], booting@, tap_name@);
        assert(!(list[i].cmdline is Gone));
    }
}

/// A command line is cut at its zero bytes, which belong to no argument: what stands
/// before the first is the first argument, and the others are those of what follows.
pub proof fn law_arguments_end_at_zero_bytes(
    first: Seq<u8>,
    rest: &[u8],
    cmdline: &[u8],
    others: Vec<Vec<u8>>,
    r: Vec<Vec<u8>>,
)
    requires
        !first.contains(0u8),
        call_ensures(split_arguments, (rest,), others),
        call_ensures(split_arguments, (cmdline,), r),
    ensures
        cmdline@ == first + seq![0u8] + rest@ ==> byte_views(r@) == seq![first] + byte_views(
            others@,
        ),
        cmdline@ == first ==> byte_views(r@) == seq![first],
{
    let n = first.len() as int;
    assert forall|j: int| 0 <= j < n implies first[j] != 0 by {
        if first[j] == 0 {
            assert(first.contains(0u8));
        }
    }
    if cmdline@ == first + seq![0u8] + rest@ {
        let bytes = cmdline@;
        assert(bytes[n] == 0);
        assert forall|j: int| 0 <= j < n implies bytes[j] != 0 by {
            assert(bytes[j] == first[j]);
        }
        lemma_first_nul(bytes, n);
        assert(bytes.take(n) =~= first);
        assert(bytes.skip(n + 1) =~= rest@);
    }
    if cmdline@ == first {
        lemma_first_nul(first, n);
    }
}

/// A process serves the instance that its control socket is named after: the socket's
/// name without its ending, and without the directory. A process without such a
/// socket serves none.
pub proof fn law_served_instance_is_the_sockets(
    cmdline: &[u8],
    dir: Seq<char>,
    id: Seq<char>,
    socket: Option<String>,
    r: Option<String>,
)
    requires
        call_ensures(socket_path_from_cmdline, (cmdline,), socket),
        call_ensures(instance_id_from_cmdline, (cmdline,), r),
        !id.contains('/'),
    ensures
        socket is None ==> r is None,
        socket matches Some(s) ==> (r is Some <==> ".sock"@.is_suffix_of(s@)),
        socket matches Some(s) ==> (s@ == dir + seq!['/'] + id + ".sock"@ ==> opt_str(r) == Some(
            id,
        )),
{
    if let Some(s) = socket {
        if s@ == dir + seq!['/'] + id + ".sock"@ {
            let stem = dir + seq!['/'] + id;
            let n = ".sock"@.len() as int;
            assert(s@.subrange(s@.len() - n, s@.len() as int) =~= ".sock"@);
            assert(s@.take(s@.len() - n) =~= stem);
            lemma_last_pos(stem, '/');
            let k = dir.len() as int;
            assert(stem[k] == '/');
            assert forall|j: int| k < j < stem.len() implies stem[j] != '/' by {
                assert(stem[j] == id[j - k - 1]);
                if id[j - k - 1] == '/' {
                    assert(id.contains('/'));
                }
            }
            assert(last_pos(stem, '/') == k);
            assert(base_name(stem) =~= id);
        }
    }
}

/// One process more is a live VMM that uses an interface exactly where it is a
/// process, and either cannot be looked at or serves an instance, other than the one
/// that boots, that is given the interface.
pub proof fn law_processes_are_looked_at_one_by_one(
    entries: Vec<ProcessEntry>,
    more: Vec<ProcessEntry>,
    last: ProcessEntry,
    name: &str,
    pid: Option<u32>,
    cmdline: &[u8],
    id: Option<String>,
    served: &str,
    net: InstanceNet,
    tap_name: &str,
    booting: &str,
    r: bool,
    after: bool,
)
    requires
        more@ == entries@.push(last),
        name@ == last.name@,
        call_ensures(parse_pid, (name,), pid),
        last.cmdline matches CmdlineRead::Text(c) ==> c@ == cmdline@,
        call_ensures(instance_id_from_cmdline, (cmdline,), id),
        id matches Some(s) ==> s@ == served@,
        call_ensures(InstanceNet::for_instance, (served,), net),
        call_ensures(live_vm_uses_tap, (&Some(entries), tap_name, booting), r),
        call_ensures(live_vm_uses_tap, (&Some(more), tap_name, booting), after),
    ensures
        entries@.len() == 0 ==> !r,
        after <==> r || (pid is Some && (last.cmdline is Denied || (last.cmdline is Text
            && id is Some && served@ != booting@ && net.tap_name@ == tap_name@))),
{
    let a = entries@;
    let b = more@;
    let may = entry_may_use(last, booting@, tap_name@);
    assert(may <==> (pid is Some && (last.cmdline is Denied || (last.cmdline is Text && id is Some
        && served@ != booting@ && net.tap_name@ == tap_name@))));
    lemma_one_more_process(a, last, booting@, tap_name@);
}

/// Of one entry more, the last one decides where no other does.
proof fn lemma_one_more_process(
    a: Seq<ProcessEntry>,
    last: ProcessEntry,
    booting: Seq<char>,
    tap: Seq<char>,
)
    ensures
        some_may_use(a.push(last), booting, tap) <==> some_may_use(a, booting, tap)
            || entry_may_use(last, booting, tap),
{
    let b = a.push(last);
    if some_may_use(a, booting, tap) {
        let i = choose|i: int| 0 <= i < a.len() && #[trigger] entry_may_use(a[i], booting, tap);
        assert(entry_may_use(b[i], booting, tap));
    }
    if entry_may_use(last, booting, tap) {
        assert(entry_may_use(b[a.len() as int], booting, tap));
    }
    if some_may_use(b, booting, tap) {
        let i = choose|i: int| 0 <= i < b.len() && #[trigger] entry_may_use(b[i], booting, tap);
        if i < a.len() {
            assert(entry_may_use(a[i], booting, tap));
        }
    }
}

} // verus!
