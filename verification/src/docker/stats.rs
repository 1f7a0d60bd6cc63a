//! Counters of a container, from what the daemon says about it.
use vstd::prelude::*;
use crate::error::{RuntimeError, RuntimeErrorView};
use crate::stats::{DiskIoStats, MemoryStats, NetworkStats, PidStats, Ratio, nothing, product, saturated};
use crate::text::{cat2, cat4, same};

verus! {

/// The memory counters of a container.
#[derive(Clone, Copy, Debug, PartialEq, Eq, Structural)]
pub struct RawMemory {
    pub usage: Option<u64>,
    pub limit: Option<u64>,
    pub cache: Option<u64>,
}

/// The counters of one network of a container.
#[derive(Clone, Copy, Debug, PartialEq, Eq, Structural)]
pub struct RawNetwork {
    pub rx_bytes: Option<u64>,
    pub tx_bytes: Option<u64>,
    pub rx_packets: Option<u64>,
    pub tx_packets: Option<u64>,
}

/// A disk counter of a container.
#[derive(Debug)]
pub struct RawDiskEntry {
    pub op: Option<String>,
    pub value: Option<u64>,
}

/// A counter that counts as zero where it is not given.
pub open spec fn or_zero(o: Option<u64>) -> u64 {
    match o {
        Some(n) => n,
        None => 0,
    }
}

/// A counter that counts as zero where it is not given.
fn zero_or(o: Option<u64>) -> (r: u64)
    ensures
        r == or_zero(o),
{
    match o {
        Some(n) => n,
        None => 0,
    }
}

/// The memory of a container, without what the kernel only keeps cached.
pub fn compute_memory_stats(memory: Option<RawMemory>) -> (r: MemoryStats)
    ensures
        match memory {
            Some(m) => r.usage_bytes == saturated(or_zero(m.usage) - or_zero(m.cache))
                && r.limit_bytes == or_zero(m.limit),
            None => r.usage_bytes == 0 && r.limit_bytes == 0,
        },
{
    match memory {
        Some(m) => MemoryStats {
            usage_bytes: zero_or(m.usage).saturating_sub(zero_or(m.cache)),
            limit_bytes: zero_or(m.limit),
        },
        None => MemoryStats { usage_bytes: 0, limit_bytes: 0 },
    }
}

/// The sum of one counter over some networks.
pub open spec fn network_sum(networks: Seq<RawNetwork>, f: spec_fn(RawNetwork) -> Option<u64>) -> int
    decreases networks.len(),
{
    if networks.len() == 0 {
        0
    } else {
        network_sum(networks.drop_last(), f) + or_zero(f(networks.last()))
    }
}

/// The bytes received over some networks.
pub open spec fn total_rx_bytes(networks: Seq<RawNetwork>) -> int {
    network_sum(networks, |n: RawNetwork| n.rx_bytes)
}

/// The bytes sent over some networks.
pub open spec fn total_tx_bytes(networks: Seq<RawNetwork>) -> int {
    network_sum(networks, |n: RawNetwork| n.tx_bytes)
}

/// The packets received over some networks.
pub open spec fn total_rx_packets(networks: Seq<RawNetwork>) -> int {
    network_sum(networks, |n: RawNetwork| n.rx_packets)
}

/// The packets sent over some networks.
pub open spec fn total_tx_packets(networks: Seq<RawNetwork>) -> int {
    network_sum(networks, |n: RawNetwork| n.tx_packets)
}

/// A sum over fewer networks is no larger.
proof fn lemma_network_sum_grows(
    networks: Seq<RawNetwork>,
    f: spec_fn(RawNetwork) -> Option<u64>,
    n: int,
)
    requires
        0 <= n <= networks.len(),
    ensures
        0 <= network_sum(networks.take(n), f) <= network_sum(networks, f),
    decreases networks.len(),
{
    if n < networks.len() {
        lemma_network_sum_grows(networks.drop_last(), f, n);
        assert(networks.drop_last().take(n) =~= networks.take(n));
    } else {
        assert(networks.take(n) =~= networks);
        if n > 0 {
            lemma_network_sum_grows(networks.drop_last(), f, n - 1);
        }
    }
}

/// The traffic of a container over all its networks.
pub fn compute_network_stats(networks: &Vec<RawNetwork>) -> (r: NetworkStats)
    requires
        total_rx_bytes(networks@) <= u64::MAX,
        total_tx_bytes(networks@) <= u64::MAX,
        total_rx_packets(networks@) <= u64::MAX,
        total_tx_packets(networks@) <= u64::MAX,
    ensures
        r.rx_bytes == total_rx_bytes(networks@),
        r.tx_bytes == total_tx_bytes(networks@),
        r.rx_packets == total_rx_packets(networks@),
        r.tx_packets == total_tx_packets(networks@),
{
    let mut rx_bytes: u64 = 0;
    let mut tx_bytes: u64 = 0;
    let mut rx_packets: u64 = 0;
    let mut tx_packets: u64 = 0;
    let mut i: usize = 0;
    while i < networks.len()
        invariant
            i <= networks.len(),
            total_rx_bytes(networks@) <= u64::MAX,
            total_tx_bytes(networks@) <= u64::MAX,
            total_rx_packets(networks@) <= u64::MAX,
            total_tx_packets(networks@) <= u64::MAX,
            rx_bytes == total_rx_bytes(networks@.take(i as int)),
            tx_bytes == total_tx_bytes(networks@.take(i as int)),
            rx_packets == total_rx_packets(networks@.take(i as int)),
            tx_packets == total_tx_packets(networks@.take(i as int)),
        decreases networks.len() - i,
    {
        let n = &networks[i];
        proof {
            assert(networks@.take(i + 1).drop_last() =~= networks@.take(i as int));
            assert(networks@.take(i + 1).last() == networks@[i as int]);
            lemma_network_sum_grows(networks@, |n: RawNetwork| n.rx_bytes, i + 1);
            lemma_network_sum_grows(networks@, |n: RawNetwork| n.tx_bytes, i + 1);
            lemma_network_sum_grows(networks@, |n: RawNetwork| n.rx_packets, i + 1);
            lemma_network_sum_grows(networks@, |n: RawNetwork| n.tx_packets, i + 1);
        }
        rx_bytes = rx_bytes + zero_or(n.rx_bytes);
        tx_bytes = tx_bytes + zero_or(n.tx_bytes);
        rx_packets = rx_packets + zero_or(n.rx_packets);
        tx_packets = tx_packets + zero_or(n.tx_packets);
        i += 1;
    }
    assert(networks@.take(networks.len() as int) =~= networks@);
    NetworkStats { rx_bytes, tx_bytes, rx_packets, tx_packets }
}

/// Whether a disk counter counts what was read.
pub open spec fn is_read(e: RawDiskEntry) -> bool {
    e.op matches Some(op) && (op@ == "read"@ || op@ == "Read"@)
}

/// Whether a disk counter counts what was written.
pub open spec fn is_write(e: RawDiskEntry) -> bool {
    e.op matches Some(op) && (op@ == "write"@ || op@ == "Write"@)
}

/// The bytes read, or written, in all.
pub open spec fn disk_sum(entries: Seq<RawDiskEntry>, reads: bool) -> int
    decreases entries.len(),
{
    if entries.len() == 0 {
        0
    } else {
        let rest = disk_sum(entries.drop_last(), reads);
        let counts = if reads {
            is_read(entries.last())
        } else {
            is_write(entries.last()) && !is_read(entries.last())
        };
        if counts {
            rest + or_zero(entries.last().value)
        } else {
            rest
        }
    }
}

/// A sum over fewer counters is no larger.
proof fn lemma_disk_sum_grows(entries: Seq<RawDiskEntry>, reads: bool, n: int)
    requires
        0 <= n <= entries.len(),
    ensures
        0 <= disk_sum(entries.take(n), reads) <= disk_sum(entries, reads),
    decreases entries.len(),
{
    if n < entries.len() {
        lemma_disk_sum_grows(entries.drop_last(), reads, n);
        assert(entries.drop_last().take(n) =~= entries.take(n));
    } else {
        assert(entries.take(n) =~= entries);
        if n > 0 {
            lemma_disk_sum_grows(entries.drop_last(), reads, n - 1);
        }
    }
}

/// The disk traffic of a container.
pub fn compute_disk_io_stats(entries: &Vec<RawDiskEntry>) -> (r: DiskIoStats)
    requires
        disk_sum(entries@, true) <= u64::MAX,
        disk_sum(entries@, false) <= u64::MAX,
    ensures
        r.read_bytes == disk_sum(entries@, true),
        r.write_bytes == disk_sum(entries@, false),
{
    let mut read_bytes: u64 = 0;
    let mut write_bytes: u64 = 0;
    let mut i: usize = 0;
    while i < entries.len()
        invariant
            i <= entries.len(),
            disk_sum(entries@, true) <= u64::MAX,
            disk_sum(entries@, false) <= u64::MAX,
            read_bytes == disk_sum(entries@.take(i as int), true),
            write_bytes == disk_sum(entries@.take(i as int), false),
        decreases entries.len() - i,
    {
        proof {
            assert(entries@.take(i + 1).drop_last() =~= entries@.take(i as int));
            assert(entries@.take(i + 1).last() == entries@[i as int]);
            lemma_disk_sum_grows(entries@, true, i + 1);
            lemma_disk_sum_grows(entries@, false, i + 1);
        }
        if let Some(op) = &entries[i].op {
            let value: u64 = zero_or(entries[i].value);
            if same(op.as_str(), "read") || same(op.as_str(), "Read") {
                read_bytes = read_bytes + value;
            } else if same(op.as_str(), "write") || same(op.as_str(), "Write") {
                write_bytes = write_bytes + value;
            }
        }
        i += 1;
    }
    assert(entries@.take(entries.len() as int) =~= entries@);
    DiskIoStats { read_bytes, write_bytes }
}

/// The processes of a container.
pub fn compute_pid_stats(current: Option<u64>, limit: Option<u64>) -> (r: PidStats)
    ensures
        r == (PidStats { current: or_zero(current), limit: or_zero(limit) }),
{
    PidStats { current: zero_or(current), limit: zero_or(limit) }
}

/// The CPU counters of a container.
#[derive(Clone, Copy, Debug, PartialEq, Eq, Structural)]
pub struct RawCpu {
    pub total_usage: Option<u64>,
    pub system_cpu_usage: Option<u64>,
    pub online_cpus: Option<u32>,
}

/// How many CPUs there are; one where it is not given.
pub open spec fn cpus_of(cpu: RawCpu) -> u64 {
    match cpu.online_cpus {
        Some(n) => n as u64,
        None => 1,
    }
}

/// Whether the counters of two samples can be held against each other: the
/// machine's has grown and the container's has not gone back.
pub open spec fn comparable(cpu: RawCpu, before: RawCpu) -> bool {
    &&& or_zero(cpu.system_cpu_usage) > or_zero(before.system_cpu_usage)
    &&& or_zero(cpu.total_usage) >= or_zero(before.total_usage)
}

/// The share of one CPU that a container used between two samples: its part of
/// the machine's CPU time, times the number of CPUs. Nothing where a sample is
/// missing or a counter went back.
pub fn cpu_ratio_of(cpu: Option<RawCpu>, before: Option<RawCpu>) -> (r: Ratio)
    ensures
        match (cpu, before) {
            (Some(now), Some(past)) => if comparable(now, past) {
                r.numerator == (or_zero(now.total_usage) - or_zero(past.total_usage)) * cpus_of(now)
                    && r.denominator == or_zero(now.system_cpu_usage) - or_zero(
                    past.system_cpu_usage,
                )
            } else {
                r == nothing()
            },
            _ => r == nothing(),
        },
        r.denominator > 0,
{
    let none = Ratio { numerator: 0, denominator: 1 };
    match (cpu, before) {
        (Some(now), Some(earlier)) => {
            let system: u64 = zero_or(now.system_cpu_usage);
            let system_before: u64 = zero_or(earlier.system_cpu_usage);
            let used: u64 = zero_or(now.total_usage);
            let used_before: u64 = zero_or(earlier.total_usage);
            let cpus: u64 = match now.online_cpus {
                Some(n) => n as u64,
                None => 1,
            };
            if system > system_before && used >= used_before {
                Ratio {
                    numerator: product(used - used_before, cpus),
                    denominator: (system - system_before) as u128,
                }
            } else {
                none
            }
        },
        _ => none,
    }
}

/// The error for counters that could not be had.
pub fn stats_error(container_id: &str, text: &str) -> (r: RuntimeError)
    ensures
        r@ == RuntimeErrorView::StatsFetchFailed(
            "Failed to get stats for "@ + container_id@ + ": "@ + text@,
        ),
{
    RuntimeError::StatsFetchFailed(cat4("Failed to get stats for ", container_id, ": ", text))
}

/// The error for counters that the daemon did not send.
pub fn no_stats_error(container_id: &str) -> (r: RuntimeError)
    ensures
        r@ == RuntimeErrorView::StatsFetchFailed(
            "No stats returned for container "@ + container_id@,
        ),
{
    RuntimeError::StatsFetchFailed(cat2("No stats returned for container ", container_id))
}

/// The number that the bits of a signed number stand for without a sign.
pub open spec fn unsigned_bits(n: i64) -> int {
    if n >= 0 {
        n as int
    } else {
        n + 0x1_0000_0000_0000_0000
    }
}

/// The restarts of a container; zero where the daemon does not say.
pub fn restart_count_of(count: Option<i64>) -> (r: u64)
    ensures
        r == match count {
            Some(n) => unsigned_bits(n),
            None => 0,
        },
{
    match count {
        Some(n) => if n >= 0 {
            n as u64
        } else {
            u64::MAX - ((-(n + 1)) as u64)
        },
        None => 0,
    }
}

// ---------------------------------------------------------------------------
// Laws
// ---------------------------------------------------------------------------

/// The memory that is reported is what is used without what is only cached, and
/// never below zero; what the daemon does not give counts as zero.
pub proof fn law_cached_memory_is_not_used(m: RawMemory, r: MemoryStats)
    requires
        call_ensures(compute_memory_stats, (Some(m),), r),
    ensures
        m.usage matches Some(used) ==> m.cache matches Some(cached) ==> (used >= cached
            ==> r.usage_bytes + cached == used) && (used < cached ==> r.usage_bytes == 0),
        m.usage matches Some(used) ==> m.cache is None ==> r.usage_bytes == used,
        m.usage is None ==> r.usage_bytes == 0,
        m.limit matches Some(limit) ==> r.limit_bytes == limit,
        m.limit is None ==> r.limit_bytes == 0,
{
}

/// The traffic of a container is the sum over its networks, each counter by
/// itself: one more network adds its own counters.
pub proof fn law_every_network_counts_once(
    networks: &Vec<RawNetwork>,
    more: &Vec<RawNetwork>,
    last: RawNetwork,
    before: NetworkStats,
    after: NetworkStats,
)
    requires
        more@ == networks@.push(last),
        call_ensures(compute_network_stats, (networks,), before),
        call_ensures(compute_network_stats, (more,), after),
    ensures
        networks@.len() == 0 ==> before.rx_bytes == 0 && before.tx_bytes == 0 && before.rx_packets
            == 0 && before.tx_packets == 0,
        last.rx_bytes matches Some(n) ==> after.rx_bytes == before.rx_bytes + n,
        last.rx_bytes is None ==> after.rx_bytes == before.rx_bytes,
        last.tx_bytes matches Some(n) ==> after.tx_bytes == before.tx_bytes + n,
        last.tx_bytes is None ==> after.tx_bytes == before.tx_bytes,
        last.rx_packets matches Some(n) ==> after.rx_packets == before.rx_packets + n,
        last.rx_packets is None ==> after.rx_packets == before.rx_packets,
        last.tx_packets matches Some(n) ==> after.tx_packets == before.tx_packets + n,
        last.tx_packets is None ==> after.tx_packets == before.tx_packets,
{
    assert(more@.drop_last() =~= networks@);
}

/// The disk traffic is the sum of the counters that say what they count: one
/// more counter adds to what was read, to what was written, or to neither.
pub proof fn law_every_disk_counter_counts_once(
    entries: &Vec<RawDiskEntry>,
    more: &Vec<RawDiskEntry>,
    last: RawDiskEntry,
    before: DiskIoStats,
    after: DiskIoStats,
)
    requires
        more@ == entries@.push(last),
        call_ensures(compute_disk_io_stats, (entries,), before),
        call_ensures(compute_disk_io_stats, (more,), after),
    ensures
        entries@.len() == 0 ==> before.read_bytes == 0 && before.write_bytes == 0,
        ({
            let reads = last.op matches Some(op) && (op@ == "read"@ || op@ == "Read"@);
            let writes = last.op matches Some(op) && (op@ == "write"@ || op@ == "Write"@);
            let n = if last.value is Some {
                last.value->0 as int
            } else {
                0
            };
            &&& reads ==> after.read_bytes == before.read_bytes + n && after.write_bytes
                == before.write_bytes
            &&& writes ==> after.write_bytes == before.write_bytes + n && after.read_bytes
                == before.read_bytes
            &&& !reads && !writes ==> after == before
        }),
{
    assert(more@.drop_last() =~= entries@);
    reveal_strlit("read");
    reveal_strlit("Read");
    reveal_strlit("write");
    reveal_strlit("Write");
    assert("read"@.len() != "write"@.len());
    assert("Read"@.len() != "write"@.len());
    assert("read"@.len() != "Write"@.len());
    assert("Read"@.len() != "Write"@.len());
}

/// The CPU share is the container's part of the machine's time between two
/// samples, once per CPU, and nothing where a sample is missing, the machine's
/// counter stands still or goes back, or the container's goes back.
pub proof fn law_cpu_share_is_taken_between_samples(
    now: RawCpu,
    past: RawCpu,
    r: Ratio,
    first: Ratio,
)
    requires
        now.total_usage is Some && past.total_usage is Some,
        now.system_cpu_usage is Some && past.system_cpu_usage is Some,
        call_ensures(cpu_ratio_of, (Some(now), Some(past)), r),
        call_ensures(cpu_ratio_of, (Some(now), None), first),
    ensures
        first.numerator == 0,
        ({
            let used = now.total_usage->0 - past.total_usage->0;
            let passed = now.system_cpu_usage->0 - past.system_cpu_usage->0;
            &&& passed <= 0 || used < 0 ==> r.numerator == 0 && r.denominator > 0
            &&& passed > 0 && used >= 0 ==> r.denominator == passed
            &&& passed > 0 && used >= 0 && now.online_cpus is None ==> r.numerator == used
            &&& passed > 0 && used >= 0 ==> (now.online_cpus matches Some(n) ==> r.numerator == used
                * n)
        }),
{
}

/// The processes and the restarts are reported as the daemon gives them, and as
/// zero where it does not.
pub proof fn law_missing_counters_are_zero(
    current: Option<u64>,
    limit: Option<u64>,
    pids: PidStats,
    count: Option<i64>,
    restarts: u64,
)
    requires
        call_ensures(compute_pid_stats, (current, limit), pids),
        call_ensures(restart_count_of, (count,), restarts),
    ensures
        current matches Some(n) ==> pids.current == n,
        current is None ==> pids.current == 0,
        limit matches Some(n) ==> pids.limit == n,
        limit is None ==> pids.limit == 0,
        count matches Some(n) ==> n >= 0 ==> restarts == n,
        count is None ==> restarts == 0,
{
}

} // verus!
