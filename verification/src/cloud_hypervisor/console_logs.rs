//! The serial console of an instance: a file that grows, is rotated into
//! numbered backups, and is read back or followed line by line.
use vstd::prelude::*;
use vstd::string::*;
use crate::foreign::{lossy_text, utf8_lossy};
use crate::text::{cat2, cat3, chars_of, decimal, decimal_u64, ends, lemma_numeral_injective, lines, lines_of, parse_unsigned, same, string_of, strs, unsigned_value};

verus! {

// ---------------------------------------------------------------------------
// Reading
// ---------------------------------------------------------------------------

/// The path of backup `idx` of a log.
pub open spec fn backup_name(path: Seq<char>, idx: nat) -> Seq<char> {
    path + "."@ + decimal(idx)
}

/// The path of backup `idx` of a log.
pub fn backup_path(path: &str, idx: u32) -> (r: String)
    ensures
        r@ == backup_name(path@, idx as nat),
{
    let number = decimal_u64(idx as u64);
    cat3(path, ".", number.as_str())
}

/// The backup that is looked for next, given how many numbers were tried. One
/// that is missing does not end the search: every number up to the bound is
/// tried.
pub fn next_backup(tried: u32) -> (r: Option<u32>)
    ensures
        r == if tried < 999 {
            Some((tried + 1) as u32)
        } else {
            None
        },
{
    if tried < 999 {
        Some(tried + 1)
    } else {
        None
    }
}

/// The numbers below `n` that are present, each once, the highest first.
pub open spec fn present_below(present: Seq<u32>, n: nat) -> Seq<nat>
    decreases n,
{
    if n == 0 {
        seq![]
    } else {
        let idx = (n - 1) as nat;
        if present.contains(idx as u32) {
            seq![idx] + present_below(present, idx)
        } else {
            present_below(present, idx)
        }
    }
}

/// The numbers of the backups that are present, each once, the highest first.
pub open spec fn backups_descending(present: Seq<u32>) -> Seq<nat> {
    present_below(present, 0x1_0000_0000)
}

/// The paths of some backups.
pub open spec fn backup_names(path: Seq<char>, list: Seq<nat>) -> Seq<Seq<char>> {
    list.map_values(|idx: nat| backup_name(path, idx))
}

/// The files of a log from the oldest to the newest: the backups that are
/// present, the one with the highest number first, and the live file last.
pub open spec fn read_order(path: Seq<char>, present: Seq<u32>) -> Seq<Seq<char>> {
    backup_names(path, backups_descending(present)).push(path)
}

/// None of the numbers from `m` on and below `n` is present.
proof fn lemma_none_between(present: Seq<u32>, m: nat, n: nat)
    requires
        m <= n <= 0x1_0000_0000,
        forall|k: int| 0 <= k < present.len() ==> !(m <= (#[trigger] present[k]) < n),
    ensures
        present_below(present, n) == present_below(present, m),
    decreases n - m,
{
    if m < n {
        assert(!present.contains((n - 1) as u32));
        lemma_none_between(present, m, (n - 1) as nat);
    }
}

/// The highest of some numbers that lies below a bound.
fn highest_below(present: &Vec<u32>, bound: u64) -> (r: Option<u32>)
    requires
        bound <= 0x1_0000_0000,
    ensures
        match r {
            Some(idx) => idx < bound && present_below(present@, bound as nat) == seq![idx as nat]
                + present_below(present@, idx as nat),
            None => present_below(present@, bound as nat) == Seq::<nat>::empty(),
        },
{
    let mut best: Option<u32> = None;
    let mut i: usize = 0;
    while i < present.len()
        invariant
            i <= present.len(),
            match best {
                Some(idx) => idx < bound && present@.contains(idx) && forall|k: int|
                    0 <= k < i ==> !(idx < (#[trigger] present@[k]) < bound),
                None => forall|k: int| 0 <= k < i ==> !((#[trigger] present@[k]) < bound),
            },
        decreases present.len() - i,
    {
        let idx: u32 = present[i];
        if (idx as u64) < bound {
            let higher = match best {
                Some(b) => idx > b,
                None => true,
            };
            if higher {
                assert(present@.contains(present@[i as int]));
                best = Some(idx);
            }
        }
        i += 1;
    }
    proof {
        match best {
            Some(idx) => lemma_none_between(present@, (idx + 1) as nat, bound as nat),
            None => lemma_none_between(present@, 0, bound as nat),
        }
    }
    best
}

/// The files of a log from the oldest to the newest, given the numbers of the
/// backups that are there. A number that is missing is skipped.
pub fn rotated_files_in_read_order(path: &str, present: &Vec<u32>) -> (r: Vec<String>)
    ensures
        strs(r@) == read_order(path@, present@),
{
    let mut out: Vec<String> = Vec::new();
    let mut bound: u64 = 0x1_0000_0000;
    assert(strs(out@) + backup_names(path@, backups_descending(present@)) =~= backup_names(
        path@,
        backups_descending(present@),
    ));
    loop
        invariant
            bound <= 0x1_0000_0000,
            backup_names(path@, backups_descending(present@)) == strs(out@) + backup_names(
                path@,
                present_below(present@, bound as nat),
            ),
        ensures
            backup_names(path@, backups_descending(present@)) == strs(out@),
        decreases bound,
    {
        let ghost before = out@;
        match highest_below(present, bound) {
            Some(idx) => {
                let name = backup_path(path, idx);
                out.push(name);
                proof {
                    let rest = present_below(present@, idx as nat);
                    assert(strs(out@) =~= strs(before).push(name@));
                    assert(backup_names(path@, seq![idx as nat] + rest) =~= seq![name@]
                        + backup_names(path@, rest));
                    assert(strs(before) + (seq![name@] + backup_names(path@, rest)) =~= strs(out@)
                        + backup_names(path@, rest));
                }
                bound = idx as u64;
            },
            None => {
                assert(strs(before) + backup_names(path@, Seq::<nat>::empty()) =~= strs(before));
                break;
            },
        }
    }
    out.push(path.to_owned());
    assert(strs(out@) =~= read_order(path@, present@));
    out
}

/// The lines of some files, one file after the other. A file that could not be
/// read counts for nothing.
pub open spec fn file_lines(files: Seq<Option<Vec<u8>>>) -> Seq<Seq<char>>
    decreases files.len(),
{
    if files.len() == 0 {
        seq![]
    } else {
        match files.last() {
            Some(bytes) => file_lines(files.drop_last()) + lines(lossy_text(bytes@)),
            None => file_lines(files.drop_last()),
        }
    }
}

/// The lines of some files, one file after the other. Bytes that are not UTF-8
/// do not stop the reading.
pub fn collect_lines(files: &Vec<Option<Vec<u8>>>) -> (r: Vec<String>)
    ensures
        strs(r@) == file_lines(files@),
{
    let mut out: Vec<String> = Vec::new();
    let mut i: usize = 0;
    assert(strs(out@) =~= file_lines(files@.take(0)));
    while i < files.len()
        invariant
            i <= files.len(),
            strs(out@) == file_lines(files@.take(i as int)),
        decreases files.len() - i,
    {
        assert(files@.take(i + 1).drop_last() =~= files@.take(i as int));
        if let Some(bytes) = &files[i] {
            let text = utf8_lossy(bytes.as_slice());
            let mut more = lines_of(text.as_str());
            let ghost before = out@;
            let ghost added = more@;
            out.append(&mut more);
            assert(strs(out@) =~= strs(before) + strs(added));
        }
        i += 1;
    }
    assert(files@.take(files.len() as int) =~= files@);
    out
}

/// How many lines a tail asks for; `None` stands for all of them.
pub open spec fn tail_count(tail: Option<Seq<char>>) -> Option<nat> {
    match tail {
        Some(t) => if t == "all"@ {
            None
        } else {
            match unsigned_value(t) {
                Some(n) => if n <= usize::MAX {
                    Some(n)
                } else {
                    None
                },
                None => None,
            }
        },
        None => None,
    }
}

/// The last lines that a tail asks for.
pub open spec fn tailed(list: Seq<Seq<char>>, tail: Option<Seq<char>>) -> Seq<Seq<char>> {
    match tail_count(tail) {
        Some(n) => if list.len() > n {
            list.skip(list.len() - n)
        } else {
            list
        },
        None => list,
    }
}

/// The contents of an optional text.
pub open spec fn opt_view(o: Option<&str>) -> Option<Seq<char>> {
    match o {
        Some(s) => Some(s@),
        None => None,
    }
}

/// Keep the last lines that a tail asks for. One that is no number asks for all
/// of them.
pub fn apply_tail(list: Vec<String>, tail: Option<&str>) -> (r: Vec<String>)
    ensures
        strs(r@) == tailed(strs(list@), opt_view(tail)),
{
    let mut list = list;
    if let Some(text) = tail {
        if !same(text, "all") {
            if let Some(n) = parse_unsigned(text, usize::MAX as u64) {
                let keep: usize = n as usize;
                if list.len() > keep {
                    let at: usize = list.len() - keep;
                    let ghost before = list@;
                    let rest = list.split_off(at);
                    assert(strs(rest@) =~= strs(before).skip(at as int));
                    return rest;
                }
            }
        }
    }
    list
}

/// Whether a log is left out as too old, given the age of its live file: it is
/// older than the window, where there is one.
pub open spec fn too_old(since: Option<i32>, age: Option<u64>) -> bool {
    match (since, age) {
        (Some(secs), Some(a)) => secs > 0 && a > secs,
        _ => false,
    }
}

/// Whether a log is left out as too old. The console has no timestamps of its
/// own, so all of it is as old as its live file; an age that is not known
/// leaves nothing out.
pub fn is_too_old(since: Option<i32>, age: Option<u64>) -> (r: bool)
    ensures
        r == too_old(since, age),
{
    match (since, age) {
        (Some(secs), Some(a)) => secs > 0 && a > secs as u64,
        _ => false,
    }
}

/// What reading a log gives.
pub open spec fn read_result(
    files: Seq<Option<Vec<u8>>>,
    tail: Option<Seq<char>>,
    since: Option<i32>,
    age: Option<u64>,
) -> Seq<Seq<char>> {
    if too_old(since, age) {
        seq![]
    } else {
        tailed(file_lines(files), tail)
    }
}

/// The lines of a log, given its files from the oldest to the newest and the
/// age of the live file in seconds.
pub fn read_lines(
    files: &Vec<Option<Vec<u8>>>,
    tail: Option<&str>,
    since: Option<i32>,
    age: Option<u64>,
) -> (r: Vec<String>)
    ensures
        strs(r@) == read_result(files@, opt_view(tail), since, age),
{
    if is_too_old(since, age) {
        let none: Vec<String> = Vec::new();
        assert(strs(none@) =~= seq![]);
        return none;
    }
    apply_tail(collect_lines(files), tail)
}

// ---------------------------------------------------------------------------
// Following
// ---------------------------------------------------------------------------

/// The state of a reader that follows a growing log.
#[derive(Debug)]
pub struct FollowState {
    /// How much of the file was read.
    pub last_size: u64,
    /// The beginning of a line whose end was not written yet.
    pub carry: String,
    /// Lines that were read and not handed out yet.
    pub pending: Vec<String>,
}

/// What a follower does next.
#[derive(Clone, Copy, Debug, PartialEq, Eq, Structural)]
pub enum FollowAction {
    /// Nothing was added: look again later.
    Wait,
    /// Read from this position to the end.
    ReadFrom(u64),
}

/// `s` without the line feeds at its end.
pub open spec fn without_feeds(s: Seq<char>) -> Seq<char>
    decreases s.len(),
{
    if s.len() > 0 && s.last() == '\n' {
        without_feeds(s.drop_last())
    } else {
        s
    }
}

/// `s` without the line feeds at its end.
fn trim_feeds(s: &str) -> (r: String)
    ensures
        r@ == without_feeds(s@),
{
    let text = chars_of(s);
    let mut n: usize = text.len();
    assert(s@.take(s@.len() as int) =~= s@);
    while n > 0 && text[n - 1] == '\n'
        invariant
            text@ == s@,
            n <= text.len(),
            without_feeds(s@) == without_feeds(s@.take(n as int)),
        decreases n,
    {
        assert(s@.take(n as int).drop_last() =~= s@.take(n - 1));
        n -= 1;
    }
    let out = string_of(&text, 0, n);
    assert(out@ =~= s@.take(n as int));
    out
}

/// The text that a list of lines makes, a line feed behind each.
pub open spec fn unlines(list: Seq<Seq<char>>) -> Seq<char>
    decreases list.len(),
{
    if list.len() == 0 {
        seq![]
    } else {
        unlines(list.drop_last()) + list.last().push('\n')
    }
}

impl FollowState {
    /// The text that was read and not handed out yet.
    pub open spec fn text(&self) -> Seq<char> {
        unlines(strs(self.pending@)) + self.carry@
    }

    /// A follower that starts behind the first `size` bytes.
    pub fn start(size: u64) -> (r: Self)
        ensures
            r.last_size == size,
            r.carry@ == Seq::<char>::empty(),
            r.pending.len() == 0,
            r.text() =~= seq![],
    {
        FollowState { last_size: size, carry: String::new(), pending: Vec::new() }
    }

    /// Look at the size of the file. One that has shrunk was truncated: it is
    /// read from its beginning, and the unfinished line is dropped.
    pub fn observe(&mut self, size: u64) -> (r: FollowAction)
        ensures
            final(self).pending == old(self).pending,
            final(self).last_size == if size < old(self).last_size {
                0
            } else {
                old(self).last_size
            },
            final(self).carry@ == if size < old(self).last_size {
                Seq::<char>::empty()
            } else {
                old(self).carry@
            },
            r == if size == final(self).last_size {
                FollowAction::Wait
            } else {
                FollowAction::ReadFrom(final(self).last_size)
            },
    {
        if size < self.last_size {
            self.last_size = 0;
            self.carry = String::new();
        }
        if size == self.last_size {
            FollowAction::Wait
        } else {
            FollowAction::ReadFrom(self.last_size)
        }
    }

    /// Take in what was read up to the next line feed, or up to the end of the
    /// file where there is none.
    pub fn feed(&mut self, chunk: &str)
        ensures
            final(self).last_size == old(self).last_size,
            "\n"@.is_suffix_of(chunk@) ==> {
                &&& strs(final(self).pending@) == strs(old(self).pending@).push(
                    old(self).carry@ + without_feeds(chunk@),
                )
                &&& final(self).carry@ == Seq::<char>::empty()
            },
            !"\n"@.is_suffix_of(chunk@) ==> {
                &&& final(self).pending@ == old(self).pending@
                &&& final(self).carry@ == old(self).carry@ + chunk@
            },
    {
        if ends(chunk, "\n") {
            let body = trim_feeds(chunk);
            let full = cat2(self.carry.as_str(), body.as_str());
            let ghost before = self.pending@;
            self.pending.push(full);
            assert(strs(self.pending@) =~= strs(before).push(full@));
            self.carry = String::new();
        } else {
            self.carry.append(chunk);
        }
    }

    /// Record that the file was read up to `size`.
    pub fn advance(&mut self, size: u64)
        ensures
            *final(self) == (FollowState { last_size: size, ..*old(self) }),
    {
        self.last_size = size;
    }

    /// Hand out the oldest line.
    pub fn take_line(&mut self) -> (r: Option<String>)
        ensures
            final(self).last_size == old(self).last_size,
            final(self).carry == old(self).carry,
            match r {
                Some(line) => old(self).pending.len() > 0 && line == old(self).pending@[0]
                    && final(self).pending@ == old(self).pending@.skip(1),
                None => old(self).pending.len() == 0 && final(self).pending == old(self).pending,
            },
    {
        if self.pending.len() == 0 {
            return None;
        }
        let line = self.pending.remove(0);
        assert(self.pending@ =~= old(self).pending@.skip(1));
        Some(line)
    }
}

/// A chunk with one line feed at most, at its end, is taken in without loss:
/// the lines and the unfinished line that wait are the text that waited before
/// and the chunk.
pub proof fn law_following_loses_nothing(
    pending: Seq<Seq<char>>,
    carry: Seq<char>,
    chunk: Seq<char>,
)
    requires
        chunk.len() > 0,
        forall|i: int| 0 <= i < chunk.len() - 1 ==> chunk[i] != '\n',
    ensures
        chunk.last() == '\n' ==> unlines(pending.push(carry + without_feeds(chunk))) == unlines(
            pending,
        ) + carry + chunk,
        chunk.last() != '\n' ==> unlines(pending) + (carry + chunk) == unlines(pending) + carry
            + chunk,
{
    if chunk.last() == '\n' {
        let body = chunk.drop_last();
        assert(without_feeds(chunk) == without_feeds(body));
        if body.len() > 0 {
            assert(body.last() == chunk[chunk.len() - 2]);
        }
        assert(without_feeds(body) == body);
        let more = pending.push(carry + body);
        assert(more.drop_last() =~= pending);
        assert(unlines(more) =~= unlines(pending) + carry + chunk);
    } else {
        assert(unlines(pending) + (carry + chunk) =~= unlines(pending) + carry + chunk);
    }
}

// ---------------------------------------------------------------------------
// Rotation
// ---------------------------------------------------------------------------

/// What is done with one of the files of a log. Number zero is the live file,
/// the others are the backups. A file that is not there is passed over.
#[derive(Clone, Copy, Debug, PartialEq, Eq, Structural)]
pub enum RotateOp {
    /// Remove the file with this number.
    Remove(u32),
    /// Rename the file with the first number to the second.
    Rename(u32, u32),
}

/// The files of a log, by number, after one operation.
pub open spec fn after_op<C>(files: Map<nat, C>, op: RotateOp) -> Map<nat, C> {
    match op {
        RotateOp::Remove(k) => files.remove(k as nat),
        RotateOp::Rename(from, to) => if files.dom().contains(from as nat) {
            files.insert(to as nat, files[from as nat]).remove(from as nat)
        } else {
            files
        },
    }
}

/// The files of a log after some operations.
pub open spec fn after_ops<C>(files: Map<nat, C>, ops: Seq<RotateOp>) -> Map<nat, C>
    decreases ops.len(),
{
    if ops.len() == 0 {
        files
    } else {
        after_op(after_ops(files, ops.drop_last()), ops.last())
    }
}

/// The files of a log after a rotation that keeps `backups` of them: each file
/// has the next higher number, the live one is gone, and so is what was the
/// oldest backup.
pub open spec fn rotated<C>(files: Map<nat, C>, backups: nat) -> Map<nat, C> {
    Map::new(
        |k: nat|
            if k == 0 {
                false
            } else if k <= backups {
                files.dom().contains((k - 1) as nat)
            } else {
                files.dom().contains(k)
            },
        |k: nat|
            if k <= backups {
                files[(k - 1) as nat]
            } else {
                files[k]
            },
    )
}

/// The files of a log in the middle of a rotation: those from number `at` on
/// have moved, and nothing has number `at` itself.
spec fn half_rotated<C>(files: Map<nat, C>, backups: nat, at: nat) -> Map<nat, C> {
    Map::new(
        |k: nat|
            if k < at {
                files.dom().contains(k)
            } else if k == at {
                false
            } else if k <= backups {
                files.dom().contains((k - 1) as nat)
            } else {
                files.dom().contains(k)
            },
        |k: nat|
            if k < at || k > backups {
                files[k]
            } else {
                files[(k - 1) as nat]
            },
    )
}

/// Moving the file below the gap moves the gap down.
proof fn lemma_gap_moves<C>(files: Map<nat, C>, backups: nat, at: nat, op: RotateOp)
    requires
        1 <= at <= backups,
        op == RotateOp::Rename((at - 1) as u32, at as u32),
        backups <= u32::MAX,
    ensures
        after_op(half_rotated(files, backups, at), op) =~= half_rotated(
            files,
            backups,
            (at - 1) as nat,
        ),
{
}

/// Whether a log is rotated, and how.
pub open spec fn needs_rotation(size: Option<u64>, max_bytes: u64) -> bool {
    match size {
        Some(n) => max_bytes > 0 && n > max_bytes,
        None => false,
    }
}

/// The operations of a rotation: the oldest backup goes, and then every file
/// moves up by one, from the oldest to the live one.
pub open spec fn is_rotation(ops: Seq<RotateOp>, backups: nat) -> bool {
    &&& ops.len() == backups + 1
    &&& ops[0] == RotateOp::Remove(backups as u32)
    &&& forall|i: int|
        1 <= i < ops.len() ==> #[trigger] ops[i] == RotateOp::Rename(
            (backups - i) as u32,
            (backups - i + 1) as u32,
        )
}

/// The operations that rotate a log, given its size, the threshold and how many
/// backups are kept. Nothing is done where rotation is switched off, where
/// there is no live file, and up to the threshold. Where no backup is kept the
/// live file is removed.
pub fn rotation_ops(size: Option<u64>, max_bytes: u64, max_backups: u32) -> (r: Vec<RotateOp>)
    ensures
        !needs_rotation(size, max_bytes) ==> r.len() == 0,
        needs_rotation(size, max_bytes) && max_backups == 0 ==> r@ == seq![RotateOp::Remove(0)],
        needs_rotation(size, max_bytes) && max_backups > 0 ==> is_rotation(
            r@,
            max_backups as nat,
        ),
{
    let mut ops: Vec<RotateOp> = Vec::new();
    let over = match size {
        Some(n) => max_bytes > 0 && n > max_bytes,
        None => false,
    };
    if !over {
        return ops;
    }
    if max_backups == 0 {
        ops.push(RotateOp::Remove(0));
        assert(ops@ =~= seq![RotateOp::Remove(0)]);
        return ops;
    }
    ops.push(RotateOp::Remove(max_backups));
    let mut idx: u32 = max_backups;
    while idx > 0
        invariant
            idx <= max_backups,
            ops.len() == max_backups - idx + 1,
            ops@[0] == RotateOp::Remove(max_backups),
            forall|i: int|
                1 <= i < ops.len() ==> #[trigger] ops@[i] == RotateOp::Rename(
                    (max_backups - i) as u32,
                    (max_backups - i + 1) as u32,
                ),
        decreases idx,
    {
        ops.push(RotateOp::Rename(idx - 1, idx));
        idx -= 1;
    }
    ops
}

/// A rotation shifts every backup by one, makes the live file the newest
/// backup, drops the oldest, and touches nothing past it.
pub proof fn law_rotation_shifts<C>(files: Map<nat, C>, ops: Seq<RotateOp>, backups: nat)
    requires
        1 <= backups <= u32::MAX,
        is_rotation(ops, backups),
    ensures
        after_ops(files, ops) =~= rotated(files, backups),
{
    lemma_rotation_prefix(files, ops, backups, ops.len() as int);
    assert(ops.take(ops.len() as int) =~= ops);
    assert(half_rotated(files, backups, 0) =~= rotated(files, backups));
}

/// After the first `n` operations the gap is at the number that the next one
/// fills.
proof fn lemma_rotation_prefix<C>(files: Map<nat, C>, ops: Seq<RotateOp>, backups: nat, n: int)
    requires
        1 <= backups <= u32::MAX,
        is_rotation(ops, backups),
        1 <= n <= ops.len(),
    ensures
        after_ops(files, ops.take(n)) =~= half_rotated(files, backups, (backups - n + 1) as nat),
    decreases n,
{
    let prefix = ops.take(n);
    assert(prefix.drop_last() =~= ops.take(n - 1));
    assert(prefix.last() == ops[n - 1]);
    if n == 1 {
        assert(ops.take(0) =~= seq![]);
        assert(after_ops(files, ops.take(0)) == files);
        assert(after_ops(files, prefix) =~= half_rotated(files, backups, backups));
    } else {
        lemma_rotation_prefix(files, ops, backups, n - 1);
        lemma_gap_moves(files, backups, (backups - n + 2) as nat, ops[n - 1]);
    }
}

/// Whether a file of the directory is a live console log.
pub fn is_console_log(name: &str) -> (r: bool)
    ensures
        r == ".console.log"@.is_suffix_of(name@),
{
    ends(name, ".console.log")
}

/// A tail never gives more lines than it asks for, and what it gives are the
/// last ones.
pub proof fn law_tail_is_a_suffix(list: Seq<Seq<char>>, tail: Option<Seq<char>>)
    ensures
        tailed(list, tail).is_suffix_of(list),
        tail_count(tail) matches Some(n) ==> tailed(list, tail).len() <= n,
        tail_count(tail) is None ==> tailed(list, tail) == list,
{
    let kept = tailed(list, tail);
    assert(kept =~= list.subrange(list.len() - kept.len(), list.len() as int));
}

/// The backups are read from the highest number to the lowest: every one that is
/// present, however many numbers are missing between them, and no other.
pub proof fn law_every_backup_is_read(present: Seq<u32>)
    ensures
        forall|i: int, j: int|
            0 <= i < j < backups_descending(present).len() ==> backups_descending(present)[i]
                > backups_descending(present)[j],
        forall|idx: u32|
            present.contains(idx) <==> #[trigger] backups_descending(present).contains(idx as nat),
{
    lemma_present_below(present, 0x1_0000_0000);
    let list = backups_descending(present);
    assert forall|idx: u32| present.contains(idx) <==> #[trigger] list.contains(idx as nat) by {
        assert((idx as nat) as u32 == idx);
        assert(lists_below(present, 0x1_0000_0000, list, idx as nat));
    }
}

/// Whether a list holds a number exactly where it is present and lies below a
/// bound.
spec fn lists_below(present: Seq<u32>, n: nat, list: Seq<nat>, idx: nat) -> bool {
    list.contains(idx) <==> idx < n && present.contains(idx as u32)
}

/// The numbers below a bound that are present are listed in descending order.
proof fn lemma_present_below(present: Seq<u32>, n: nat)
    requires
        n <= 0x1_0000_0000,
    ensures
        forall|i: int, j: int|
            0 <= i < j < present_below(present, n).len() ==> present_below(present, n)[i]
                > present_below(present, n)[j],
        forall|i: int|
            0 <= i < present_below(present, n).len() ==> (#[trigger] present_below(present, n)[i])
                < n,
        forall|idx: nat| #[trigger] lists_below(present, n, present_below(present, n), idx),
    decreases n,
{
    let list = present_below(present, n);
    if n > 0 {
        let top = (n - 1) as nat;
        let rest = present_below(present, top);
        lemma_present_below(present, top);
        assert forall|idx: nat| #[trigger] lists_below(present, n, list, idx) by {
            assert(lists_below(present, top, rest, idx));
            if list.contains(idx) {
                let i = choose|i: int| 0 <= i < list.len() && list[i] == idx;
                if present.contains(top as u32) && i > 0 {
                    assert(rest[i - 1] == idx);
                }
            }
            if idx < n && present.contains(idx as u32) {
                if idx == top {
                    assert(list[0] == idx);
                } else {
                    let i = choose|i: int| 0 <= i < rest.len() && rest[i] == idx;
                    if present.contains(top as u32) {
                        assert(list[i + 1] == idx);
                    } else {
                        assert(list[i] == idx);
                    }
                }
            }
        }
        assert forall|i: int| 0 <= i < list.len() implies (#[trigger] list[i]) < n by {
            if present.contains(top as u32) {
                if i > 0 {
                    assert(list[i] == rest[i - 1]);
                }
            } else {
                assert(list[i] == rest[i]);
            }
        }
        assert forall|i: int, j: int| 0 <= i < j < list.len() implies list[i] > list[j] by {
            if present.contains(top as u32) {
                assert(list[j] == rest[j - 1]);
                if i > 0 {
                    assert(list[i] == rest[i - 1]);
                }
            }
        }
    } else {
        assert forall|idx: nat| #[trigger] lists_below(present, n, list, idx) by {
            assert(list =~= seq![]);
        }
    }
}

/// Whether a list holds exactly the numbers of the backups that are looked for
/// and there. Number zero of the files is the live one.
pub open spec fn finds_backups(present: Seq<u32>, files: Map<nat, Vec<u8>>) -> bool {
    forall|idx: u32|
        #[trigger] present.contains(idx) <==> 1 <= idx <= 999 && files.dom().contains(idx as nat)
}

/// The contents of the files with these numbers.
pub open spec fn file_contents(files: Map<nat, Vec<u8>>, list: Seq<nat>) -> Seq<Option<Vec<u8>>> {
    list.map_values(|idx: nat| Some(files[idx]))
}

/// The contents of the files of a log in the order in which they are read.
pub open spec fn contents_in_order(files: Map<nat, Vec<u8>>, present: Seq<u32>) -> Seq<
    Option<Vec<u8>>,
> {
    file_contents(files, backups_descending(present)).push(
        if files.dom().contains(0) {
            Some(files[0])
        } else {
            None
        },
    )
}

/// While the place of the oldest backup is free, a rotation changes nothing of
/// what is read: over the backups and the live file, in the order in which they
/// are read, no line is lost, repeated or moved. Nor does it where nothing is
/// rotated.
pub proof fn law_rotation_keeps_every_line(
    files: Map<nat, Vec<u8>>,
    ops: Seq<RotateOp>,
    backups: nat,
    before: Seq<u32>,
    after: Seq<u32>,
    tail: Option<Seq<char>>,
    age: Option<u64>,
    later: Option<u64>,
)
    requires
        ops.len() == 0 || (1 <= backups < 1000 && is_rotation(ops, backups)
            && !files.dom().contains(backups)),
        finds_backups(before, files),
        finds_backups(after, after_ops(files, ops)),
    ensures
        read_result(contents_in_order(after_ops(files, ops), after), tail, None, later)
            == read_result(contents_in_order(files, before), tail, None, age),
{
    let moved = after_ops(files, ops);
    lemma_contents_are_the_chain(files, before);
    lemma_contents_are_the_chain(moved, after);
    if ops.len() > 0 {
        law_rotation_shifts(files, ops, backups);
        lemma_chain_moves_up(files, moved, backups, backups);
        lemma_chain_stays(files, moved, backups, 1000);
    }
}

/// The contents of the files with numbers below `n`, the highest number first.
spec fn chain_below(files: Map<nat, Vec<u8>>, n: nat) -> Seq<Option<Vec<u8>>>
    decreases n,
{
    if n == 0 {
        seq![]
    } else {
        let idx = (n - 1) as nat;
        if files.dom().contains(idx) {
            seq![Some(files[idx])] + chain_below(files, idx)
        } else {
            chain_below(files, idx)
        }
    }
}

/// The lines that are read are those of the files by descending number.
proof fn lemma_contents_are_the_chain(files: Map<nat, Vec<u8>>, present: Seq<u32>)
    requires
        finds_backups(present, files),
    ensures
        file_lines(contents_in_order(files, present)) == file_lines(chain_below(files, 1000)),
{
    assert forall|k: int| 0 <= k < present.len() implies !(1000 <= (#[trigger] present[k])
        < 0x1_0000_0000) by {
        assert(present.contains(present[k]));
    }
    lemma_none_between(present, 1000, 0x1_0000_0000);
    lemma_chain_of_present(files, present, 1000);
    let backups = file_contents(files, backups_descending(present));
    assert(chain_below(files, 0) =~= seq![]);
    assert(chain_below(files, 1) =~= if files.dom().contains(0) {
        seq![Some(files[0])]
    } else {
        seq![]
    });
    let all = contents_in_order(files, present);
    assert(all.drop_last() =~= backups);
    if files.dom().contains(0) {
        assert(all =~= chain_below(files, 1000));
    } else {
        assert(backups =~= chain_below(files, 1000));
    }
}

/// The backups below `n` that are present, with the live file behind them where
/// there is one, are the files below `n`.
proof fn lemma_chain_of_present(files: Map<nat, Vec<u8>>, present: Seq<u32>, n: nat)
    requires
        1 <= n <= 1000,
        finds_backups(present, files),
    ensures
        chain_below(files, n) == file_contents(files, present_below(present, n)) + chain_below(
            files,
            1,
        ),
    decreases n,
{
    let idx = (n - 1) as nat;
    assert(present.contains(idx as u32) <==> 1 <= idx <= 999 && files.dom().contains(idx));
    if n == 1 {
        assert(present_below(present, 0) =~= seq![]);
        assert(present_below(present, 1) =~= seq![]);
        assert(file_contents(files, present_below(present, 1)) + chain_below(files, 1)
            =~= chain_below(files, 1));
    } else {
        lemma_chain_of_present(files, present, idx);
        let rest = present_below(present, idx);
        if files.dom().contains(idx) {
            assert(file_contents(files, seq![idx] + rest) =~= seq![Some(files[idx])]
                + file_contents(files, rest));
            assert(seq![Some(files[idx])] + (file_contents(files, rest) + chain_below(files, 1))
                =~= file_contents(files, present_below(present, n)) + chain_below(files, 1));
        }
    }
}

/// Below the place that was free, every file has moved up by one.
proof fn lemma_chain_moves_up(
    files: Map<nat, Vec<u8>>,
    moved: Map<nat, Vec<u8>>,
    backups: nat,
    n: nat,
)
    requires
        n <= backups,
        moved == rotated(files, backups),
    ensures
        chain_below(moved, n + 1) == chain_below(files, n),
    decreases n,
{
    if n > 0 {
        lemma_chain_moves_up(files, moved, backups, (n - 1) as nat);
        assert(moved.dom().contains(n) <==> files.dom().contains((n - 1) as nat));
    } else {
        assert(!moved.dom().contains(0));
        assert(chain_below(moved, 0) =~= seq![]);
    }
}

/// Past the place that was free, every file stays.
proof fn lemma_chain_stays(
    files: Map<nat, Vec<u8>>,
    moved: Map<nat, Vec<u8>>,
    backups: nat,
    n: nat,
)
    requires
        1 <= backups < n,
        moved == rotated(files, backups),
        !files.dom().contains(backups),
        chain_below(moved, backups + 1) == chain_below(files, backups),
    ensures
        chain_below(moved, n) == chain_below(files, n),
    decreases n,
{
    if n > backups + 1 {
        lemma_chain_stays(files, moved, backups, (n - 1) as nat);
        assert(moved.dom().contains((n - 1) as nat) <==> files.dom().contains((n - 1) as nat));
    }
}

/// The backups are looked for one by one from number one, without a gap, up to
/// the bound.
pub proof fn law_every_number_is_tried(tried: u32, r: Option<u32>)
    requires
        call_ensures(next_backup, (tried,), r),
    ensures
        r is Some <==> tried < 999,
        r matches Some(n) ==> n == tried + 1,
{
}

/// The live file is read last, behind every backup that is present and no other
/// file.
pub proof fn law_live_file_is_read_last(path: &str, present: &Vec<u32>, i: int, r: Vec<String>)
    requires
        call_ensures(rotated_files_in_read_order, (path, present), r),
    ensures
        r@.len() > 0,
        r@.last()@ == path@,
        forall|k: int|
            0 <= k < present@.len() ==> strs(r@).contains(
                path@ + "."@ + decimal((#[trigger] present@[k]) as nat),
            ),
        0 <= i < r@.len() - 1 ==> exists|k: int|
            0 <= k < present@.len() && r@[i]@ == path@ + "."@ + decimal(
                (#[trigger] present@[k]) as nat,
            ),
{
    let list = backups_descending(present@);
    let names = backup_names(path@, list);
    assert(strs(r@).len() == r@.len());
    assert(strs(r@).last() == r@.last()@);
    law_every_backup_is_read(present@);
    lemma_present_below(present@, 0x1_0000_0000);
    assert forall|k: int| 0 <= k < present@.len() implies strs(r@).contains(
        path@ + "."@ + decimal((#[trigger] present@[k]) as nat),
    ) by {
        let idx = present@[k];
        assert(present@.contains(idx));
        assert(list.contains(idx as nat));
        let i = choose|i: int| 0 <= i < list.len() && list[i] == idx as nat;
        assert(names[i] == backup_name(path@, idx as nat));
        assert(strs(r@)[i] == names[i]);
    }
    if 0 <= i < r@.len() - 1 {
        assert(strs(r@)[i] == names[i]);
        assert(strs(r@)[i] == r@[i]@);
        let n = list[i];
        assert(list.contains(n));
        assert(lists_below(present@, 0x1_0000_0000, list, n));
        let idx = n as u32;
        assert(present@.contains(idx));
        let k = choose|k: int| 0 <= k < present@.len() && present@[k] == idx;
        assert(r@[i]@ == path@ + "."@ + decimal(present@[k] as nat));
    }
}

/// The lines of a log are those of its files one after the other: one more file
/// adds its lines at the end, and one that could not be read adds nothing.
pub proof fn law_files_are_read_in_order(
    files: &Vec<Option<Vec<u8>>>,
    more: &Vec<Option<Vec<u8>>>,
    last: Option<Vec<u8>>,
    before: Vec<String>,
    after: Vec<String>,
)
    requires
        more@ == files@.push(last),
        call_ensures(collect_lines, (files,), before),
        call_ensures(collect_lines, (more,), after),
    ensures
        files@.len() == 0 ==> before@.len() == 0,
        last is None ==> strs(after@) == strs(before@),
        last matches Some(bytes) ==> strs(after@) == strs(before@) + lines(lossy_text(bytes@)),
{
    assert(more@.drop_last() =~= files@);
    assert(strs(before@).len() == before@.len());
}

/// A tail that is a number keeps that many lines from the end, or all where
/// there are not more; any other tail, and none, keeps all.
pub proof fn law_tail_keeps_the_last_lines(
    list: Vec<String>,
    text: &str,
    n: Option<u64>,
    r: Vec<String>,
    whole: Vec<String>,
)
    requires
        call_ensures(parse_unsigned, (text, usize::MAX as u64), n),
        call_ensures(apply_tail, (list, Some(text)), r),
        call_ensures(apply_tail, (list, None), whole),
    ensures
        strs(whole@) == strs(list@),
        text@ == "all"@ || n is None ==> strs(r@) == strs(list@),
        text@ != "all"@ ==> (n matches Some(k) ==> strs(r@).is_suffix_of(strs(list@)) && r@.len()
            == if list@.len() > k {
            k as int
        } else {
            list@.len() as int
        }),
{
    let all = strs(list@);
    let kept = strs(r@);
    assert(kept.len() == r@.len());
    assert(all.len() == list@.len());
    law_tail_is_a_suffix(all, Some(text@));
}

/// A log is left out exactly where a window is given, its live file's age is
/// known, and the age lies beyond the window. What is read otherwise is the tail
/// of all lines.
pub proof fn law_old_log_is_left_out(
    files: &Vec<Option<Vec<u8>>>,
    tail: Option<&str>,
    since: Option<i32>,
    age: Option<u64>,
    r: Vec<String>,
    all: Vec<String>,
    kept: Vec<String>,
)
    requires
        call_ensures(collect_lines, (files,), all),
        call_ensures(apply_tail, (all, tail), kept),
        call_ensures(read_lines, (files, tail, since, age), r),
    ensures
        ({
            let old_log = since matches Some(secs) && secs > 0 && (age matches Some(a) && a > secs);
            &&& old_log ==> r@.len() == 0
            &&& !old_log ==> strs(r@) == strs(kept@)
        }),
{
    assert(strs(r@).len() == r@.len());
}

/// A follower reads on from where it stopped. It starts over exactly where the
/// file has become smaller, without the unfinished line, and waits exactly where
/// there is nothing new.
pub proof fn law_follower_reads_on(
    state: &mut FollowState,
    size: u64,
    r: FollowAction,
    fed: &mut FollowState,
    chunk: &str,
    taken: &mut FollowState,
    line: Option<String>,
)
    requires
        call_ensures(FollowState::observe, (state, size), r),
        call_ensures(FollowState::feed, (fed, chunk), ()),
        call_ensures(FollowState::take_line, (taken,), line),
    ensures
        r is Wait <==> size == old(state).last_size || size == 0,
        size > old(state).last_size ==> r == FollowAction::ReadFrom(old(state).last_size) && final(state).carry@ == old(state).carry@,
        0 < size < old(state).last_size ==> r == FollowAction::ReadFrom(0) && final(state).carry@.len() == 0,
        final(state).pending == old(state).pending,
        chunk@.len() > 0 && chunk@.last() == '\n' ==> final(fed).pending@.len() == old(
            fed,
        ).pending@.len() + 1 && final(fed).carry@.len() == 0 && old(fed).carry@.is_prefix_of(
            final(fed).pending@.last()@,
        ),
        chunk@.len() == 0 || chunk@.last() != '\n' ==> final(fed).pending@ == old(fed).pending@
            && final(fed).carry@ == old(fed).carry@ + chunk@,
        line is Some <==> old(taken).pending@.len() > 0,
        line matches Some(l) ==> l == old(taken).pending@[0] && final(taken).pending@ == old(
            taken,
        ).pending@.subrange(1, old(taken).pending@.len() as int),
{
    reveal_strlit("\n");
    if chunk@.len() > 0 {
        assert(chunk@.subrange(chunk@.len() - 1, chunk@.len() as int) =~= seq![chunk@.last()]);
        assert("\n"@ =~= seq!['\n']);
        assert(seq![chunk@.last()][0] == chunk@.last());
        assert(seq!['\n'][0] == '\n');
    }
    if chunk@.len() > 0 && chunk@.last() == '\n' {
        let after = final(fed).pending@;
        assert(strs(after).len() == after.len());
        assert(strs(old(fed).pending@).len() == old(fed).pending@.len());
        assert(strs(after).last() == after.last()@);
        let start = old(fed).carry@;
        assert(after.last()@.subrange(0, start.len() as int) =~= start);
    }
}

/// A log is rotated exactly where rotation is switched on and the live file is
/// there and larger than the threshold. Every file then has the next number, up
/// to the number of backups that are kept; nothing is left at number zero, and
/// files with higher numbers stay.
pub proof fn law_rotation_moves_every_file_up<C>(
    files: Map<nat, C>,
    size: Option<u64>,
    max_bytes: u64,
    max_backups: u32,
    r: Vec<RotateOp>,
)
    requires
        call_ensures(rotation_ops, (size, max_bytes, max_backups), r),
    ensures
        r@.len() == 0 <==> !(max_bytes > 0 && (size matches Some(n) && n > max_bytes)),
        r@.len() > 0 ==> {
            let after = after_ops(files, r@);
            &&& !after.dom().contains(0)
            &&& forall|k: nat|
                k < max_backups && #[trigger] files.dom().contains(k) ==> after.dom().contains(
                    k + 1,
                ) && after[k + 1] == files[k]
            &&& forall|k: nat|
                k > max_backups && #[trigger] files.dom().contains(k) ==> after.dom().contains(k)
                    && after[k] == files[k]
            &&& forall|k: nat|
                1 <= k <= max_backups && #[trigger] after.dom().contains(k)
                    ==> files.dom().contains((k - 1) as nat)
        },
{
    if r@.len() > 0 {
        if max_backups > 0 {
            law_rotation_shifts(files, r@, max_backups as nat);
        } else {
            assert(r@ =~= seq![RotateOp::Remove(0)]);
            assert(r@.drop_last() =~= seq![]);
            assert(after_ops(files, r@.drop_last()) == files);
            assert(after_ops(files, r@) == files.remove(0));
        }
    }
}

/// A backup is named after the log, with its number behind a dot: different
/// numbers name different files.
pub proof fn law_backups_are_told_apart(path: &str, a: u32, b: u32, r: String, other: String)
    requires
        call_ensures(backup_path, (path, a), r),
        call_ensures(backup_path, (path, b), other),
    ensures
        r@ == path@ + "."@ + decimal(a as nat),
        r@ == other@ <==> a == b,
{
    if r@ == other@ {
        reveal_strlit(".");
        let k = path@.len() + 1;
        assert(r@.skip(k as int) =~= decimal(a as nat));
        assert(other@.skip(k as int) =~= decimal(b as nat));
        lemma_numeral_injective(a as nat, b as nat, 10);
    }
}

/// A log is too old exactly where a span is asked for, the age is known, and the
/// age is more than the span: more of either is asked for or known changes nothing
/// the other way.
pub proof fn law_age_is_weighed_against_the_span(since: Option<i32>, age: Option<u64>, r: bool)
    requires
        call_ensures(is_too_old, (since, age), r),
    ensures
        r <==> since is Some && age is Some && since->0 > 0 && age->0 > since->0,
{
}

/// A name is that of a console log exactly where it ends like one.
pub proof fn law_console_log_is_known_by_its_ending(id: Seq<char>, name: &str, r: bool)
    requires
        call_ensures(is_console_log, (name,), r),
    ensures
        name@ == id + ".console.log"@ ==> r,
        r ==> name@ == name@.take(name@.len() - 12) + ".console.log"@,
{
    reveal_strlit(".console.log");
    if name@ == id + ".console.log"@ {
        assert(name@.subrange(name@.len() - 12, name@.len() as int) =~= ".console.log"@);
    }
    if r {
        assert(name@ =~= name@.take(name@.len() - 12) + ".console.log"@);
    }
}

} // verus!
