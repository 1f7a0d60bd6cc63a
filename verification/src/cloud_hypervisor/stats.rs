//! Counters of a virtual machine, read from the files that the host's kernel
//! keeps about its process.
use vstd::prelude::*;
use crate::stats::{DiskIoStats, NetworkStats, PidStats, Ratio, nothing, product, saturated};
use crate::text::{cat3, chars_of, decimal, decimal_u64, find_last, last_pos, lemma_last_pos, lines, lines_of, parse_unsigned, string_of, strip_front, strs, unsigned_value, without_prefix, words, words_of};

verus! {

/// How long the CPU time of a process is watched, in milliseconds.
pub const CPU_SAMPLE_INTERVAL_MILLIS: u64 = 500;

/// The clock ticks of a second on Linux.
pub const CLOCK_TICKS_PER_SEC: u64 = 100;

/// The CPU time that a process has used, in clock ticks.
#[derive(Clone, Copy, Debug, PartialEq, Eq, Structural)]
pub struct CpuSample {
    pub total_ticks: u64,
}

/// The number that a word writes, where it is an unsigned 64-bit one.
pub open spec fn u64_value(s: Seq<char>) -> Option<u64> {
    match unsigned_value(s) {
        Some(n) => if n <= u64::MAX {
            Some(n as u64)
        } else {
            None
        },
        None => None,
    }
}

/// The CPU time in the text of `/proc/<pid>/stat`: its fields 14 and 15. The
/// second field is in parentheses and may hold anything, so the fields are
/// counted from the last closing parenthesis on.
pub open spec fn proc_stat_ticks(content: Seq<char>) -> Option<u64> {
    let paren = last_pos(content, ')');
    let fields = words(content.skip(paren + 1));
    if paren >= 0 && fields.len() > 12 {
        match (u64_value(fields[11]), u64_value(fields[12])) {
            (Some(user), Some(system)) => Some(saturated(user + system)),
            _ => None,
        }
    } else {
        None
    }
}

/// Read the CPU time from the text of `/proc/<pid>/stat`.
pub fn parse_proc_stat(content: &str) -> (r: Option<CpuSample>)
    ensures
        match proc_stat_ticks(content@) {
            Some(ticks) => r == Some(CpuSample { total_ticks: ticks }),
            None => r is None,
        },
{
    let text = chars_of(content);
    let paren = match find_last(&text, ')') {
        Some(p) => p,
        None => return None,
    };
    let rest = string_of(&text, paren + 1, text.len());
    assert(rest@ =~= content@.skip(paren + 1));
    let fields = words_of(rest.as_str());
    if fields.len() <= 12 {
        return None;
    }
    assert(strs(fields@)[11] == fields@[11]@);
    assert(strs(fields@)[12] == fields@[12]@);
    let user = parse_unsigned(fields[11].as_str(), u64::MAX);
    let system = parse_unsigned(fields[12].as_str(), u64::MAX);
    match (user, system) {
        (Some(u), Some(s)) => Some(CpuSample { total_ticks: u.saturating_add(s) }),
        _ => None,
    }
}

/// The memory that a line of `/proc/<pid>/status` writes, in bytes.
pub open spec fn rss_value(rest: Seq<char>) -> u64 {
    let fields = words(rest);
    if fields.len() > 0 && u64_value(fields[0]) is Some {
        saturated(u64_value(fields[0])->0 * 1024)
    } else {
        0
    }
}

/// The resident memory in the lines of `/proc/<pid>/status`: that of the first
/// line that names it, or zero.
pub open spec fn rss_bytes(list: Seq<Seq<char>>) -> u64
    decreases list.len(),
{
    if list.len() == 0 {
        0
    } else {
        match without_prefix(list[0], "VmRSS:"@) {
            Some(rest) => rss_value(rest),
            None => rss_bytes(list.skip(1)),
        }
    }
}

/// Read the resident memory in bytes from the text of `/proc/<pid>/status`. It
/// is written there in kibibytes.
pub fn parse_vm_rss_bytes(status: &str) -> (r: u64)
    ensures
        r == rss_bytes(lines(status@)),
{
    let list = lines_of(status);
    let ghost all = lines(status@);
    let mut i: usize = 0;
    assert(all.skip(0) =~= all);
    while i < list.len()
        invariant
            i <= list.len(),
            all == strs(list@),
            all == lines(status@),
            rss_bytes(all) == rss_bytes(all.skip(i as int)),
        decreases list.len() - i,
    {
        assert(all.skip(i as int)[0] == list@[i as int]@);
        assert(all.skip(i as int).skip(1) =~= all.skip(i + 1));
        if let Some(rest) = strip_front(list[i].as_str(), "VmRSS:") {
            let fields = words_of(rest.as_str());
            if fields.len() == 0 {
                return 0;
            }
            assert(strs(fields@)[0] == fields@[0]@);
            return match parse_unsigned(fields[0].as_str(), u64::MAX) {
                Some(kb) => {
                    let wide: u128 = kb as u128 * 1024;
                    if wide > u64::MAX as u128 {
                        u64::MAX
                    } else {
                        wide as u64
                    }
                },
                None => 0,
            };
        }
        i += 1;
    }
    0
}

/// The ticks that a process used between two samples. A counter that went back
/// counts as zero.
pub fn ticks_between(prev: CpuSample, curr: CpuSample) -> (r: u64)
    ensures
        r == saturated(curr.total_ticks - prev.total_ticks),
{
    curr.total_ticks.saturating_sub(prev.total_ticks)
}

/// The share of one CPU that a process used between two samples that were taken
/// `interval_millis` apart: its CPU time over the time that passed. Two CPUs
/// that are both busy make twice the whole. Nothing where no time passed.
pub fn cpu_ratio(
    prev: CpuSample,
    curr: CpuSample,
    interval_millis: u64,
    clock_ticks_per_sec: u64,
) -> (r: Ratio)
    ensures
        interval_millis == 0 || clock_ticks_per_sec == 0 ==> r == nothing(),
        interval_millis > 0 && clock_ticks_per_sec > 0 ==> r.numerator == saturated(
            curr.total_ticks - prev.total_ticks,
        ) * 1000 && r.denominator == clock_ticks_per_sec * interval_millis,
        r.denominator > 0,
{
    if interval_millis == 0 || clock_ticks_per_sec == 0 {
        return Ratio { numerator: 0, denominator: 1 };
    }
    assert(clock_ticks_per_sec * interval_millis > 0) by (nonlinear_arith)
        requires
            clock_ticks_per_sec > 0,
            interval_millis > 0,
    ;
    Ratio {
        numerator: product(ticks_between(prev, curr), 1000),
        denominator: product(clock_ticks_per_sec, interval_millis),
    }
}

/// Network counters where none are kept.
pub fn empty_network() -> (r: NetworkStats)
    ensures
        r == (NetworkStats { rx_bytes: 0, tx_bytes: 0, rx_packets: 0, tx_packets: 0 }),
{
    NetworkStats { rx_bytes: 0, tx_bytes: 0, rx_packets: 0, tx_packets: 0 }
}

/// Disk counters where none are kept.
pub fn empty_disk_io() -> (r: DiskIoStats)
    ensures
        r == (DiskIoStats { read_bytes: 0, write_bytes: 0 }),
{
    DiskIoStats { read_bytes: 0, write_bytes: 0 }
}

/// Process counters where none are kept.
pub fn empty_pids() -> (r: PidStats)
    ensures
        r == (PidStats { current: 0, limit: 0 }),
{
    PidStats { current: 0, limit: 0 }
}

/// The file of a process with its CPU time.
pub fn stat_path(pid: u32) -> (r: String)
    ensures
        r@ == "/proc/"@ + decimal(pid as nat) + "/stat"@,
{
    let number = decimal_u64(pid as u64);
    cat3("/proc/", number.as_str(), "/stat")
}

/// The file of a process with its memory.
pub fn status_path(pid: u32) -> (r: String)
    ensures
        r@ == "/proc/"@ + decimal(pid as nat) + "/status"@,
{
    let number = decimal_u64(pid as u64);
    cat3("/proc/", number.as_str(), "/status")
}

// ---------------------------------------------------------------------------
// Laws
// ---------------------------------------------------------------------------

/// The CPU time is the sum of the twelfth and the thirteenth word behind the last
/// closing parenthesis, which stands at `paren`, and is not known where either is
/// no number or is missing.
pub proof fn law_cpu_time_is_user_and_system(
    content: &str,
    paren: int,
    rest: &str,
    fields: Vec<String>,
    user: Option<u64>,
    system: Option<u64>,
    user_text: &str,
    system_text: &str,
    r: Option<CpuSample>,
)
    requires
        0 <= paren < content@.len(),
        content@[paren] == ')',
        forall|j: int| paren < j < content@.len() ==> content@[j] != ')',
        rest@ == content@.subrange(paren + 1, content@.len() as int),
        call_ensures(words_of, (rest,), fields),
        fields@.len() > 12,
        user_text@ == fields@[11]@,
        system_text@ == fields@[12]@,
        call_ensures(parse_unsigned, (user_text, u64::MAX), user),
        call_ensures(parse_unsigned, (system_text, u64::MAX), system),
        call_ensures(parse_proc_stat, (content,), r),
    ensures
        r is Some <==> user is Some && system is Some,
        r matches Some(sample) ==> (user->0 + system->0 <= u64::MAX ==> sample.total_ticks
            == user->0 + system->0) && (user->0 + system->0 > u64::MAX ==> sample.total_ticks
            == u64::MAX),
{
    lemma_last_pos(content@, ')');
    assert(last_pos(content@, ')') == paren);
    assert(rest@ =~= content@.skip(paren + 1));
    assert(strs(fields@)[11] == fields@[11]@);
    assert(strs(fields@)[12] == fields@[12]@);
}

/// The share of a CPU grows with the time that a process used and shrinks with
/// the time that passed: over one second a process that used every tick has a
/// whole CPU. Nothing is used where the counter went back or no time passed.
pub proof fn law_cpu_share_is_used_over_passed(
    prev: CpuSample,
    curr: CpuSample,
    interval_millis: u64,
    clock_ticks_per_sec: u64,
    r: Ratio,
)
    requires
        call_ensures(cpu_ratio, (prev, curr, interval_millis, clock_ticks_per_sec), r),
    ensures
        r.denominator > 0,
        interval_millis == 0 || clock_ticks_per_sec == 0 || curr.total_ticks <= prev.total_ticks
            ==> r.numerator == 0,
        interval_millis == 1000 && clock_ticks_per_sec > 0 && curr.total_ticks - prev.total_ticks
            == clock_ticks_per_sec ==> r.numerator == r.denominator,
        interval_millis > 0 && clock_ticks_per_sec > 0 && curr.total_ticks >= prev.total_ticks
            ==> r.numerator == 1000 * (curr.total_ticks - prev.total_ticks) && r.denominator
            == interval_millis * clock_ticks_per_sec,
{
    assert(clock_ticks_per_sec * interval_millis == interval_millis * clock_ticks_per_sec)
        by (nonlinear_arith);
}

/// The resident memory is read from the first line that names it, in kibibytes;
/// `at` is its place among the lines, or their number where there is none.
pub proof fn law_resident_memory_is_in_kibibytes(
    status: &str,
    at: int,
    rest: Seq<char>,
    number: &str,
    kib: Option<u64>,
    r: u64,
)
    requires
        0 <= at <= lines(status@).len(),
        forall|j: int|
            0 <= j < at ==> !"VmRSS:"@.is_prefix_of(#[trigger] lines(status@)[j]),
        at < lines(status@).len() ==> lines(status@)[at] == "VmRSS:"@ + rest && words(rest).len()
            > 0 && number@ == words(rest)[0],
        call_ensures(parse_unsigned, (number, u64::MAX), kib),
        call_ensures(parse_vm_rss_bytes, (status,), r),
    ensures
        at == lines(status@).len() ==> r == 0,
        at < lines(status@).len() && kib is None ==> r == 0,
        at < lines(status@).len() ==> (kib matches Some(n) ==> (n <= u64::MAX / 1024 ==> r == n
            * 1024) && (n > u64::MAX / 1024 ==> r == u64::MAX)),
{
    let list = lines(status@);
    lemma_rss_line(list, at);
    if at < list.len() {
        let line = list[at];
        let mark = "VmRSS:"@;
        assert(line.subrange(0, mark.len() as int) =~= mark);
        assert(line.skip(mark.len() as int) =~= rest);
        assert(without_prefix(line, mark) == Some(rest));
    }
}

/// The first line that names the resident memory is the one that is read.
proof fn lemma_rss_line(list: Seq<Seq<char>>, at: int)
    requires
        0 <= at <= list.len(),
        forall|j: int| 0 <= j < at ==> !"VmRSS:"@.is_prefix_of(#[trigger] list[j]),
    ensures
        at == list.len() ==> rss_bytes(list) == 0,
        at < list.len() ==> (without_prefix(list[at], "VmRSS:"@) matches Some(rest) ==> rss_bytes(
            list,
        ) == rss_value(rest)),
    decreases list.len(),
{
    if at > 0 {
        assert(!"VmRSS:"@.is_prefix_of(list[0]));
        let rest = list.skip(1);
        assert forall|j: int| 0 <= j < at - 1 implies !"VmRSS:"@.is_prefix_of(
            #[trigger] rest[j],
        ) by {
            assert(rest[j] == list[j + 1]);
        }
        lemma_rss_line(rest, at - 1);
    }
}

/// The ticks between two looks are the later count less the earlier one, and none
/// where the count went back.
pub proof fn law_ticks_never_run_back(prev: CpuSample, curr: CpuSample, r: u64)
    requires
        call_ensures(ticks_between, (prev, curr), r),
    ensures
        curr.total_ticks >= prev.total_ticks ==> prev.total_ticks + r == curr.total_ticks,
        curr.total_ticks < prev.total_ticks ==> r == 0,
{
}

} // verus!
