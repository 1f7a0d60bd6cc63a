//! Counters of a container, read from the metrics that containerd hands out as
//! an encoded message.
use vstd::prelude::*;
use crate::foreign::{group_skipped, skip_field, take_key, take_varint};
use crate::stats::{DiskIoStats, MemoryStats, NetworkStats, PidStats};
use crate::text::cat2;
use crate::wire::{Wire, bytes_field, encoded, field_key, law_key_reads_back, law_number_reads_back, lemma_varint_end, number_field, plain_skipped, varint};

verus! {

/// What is left of some bytes behind a field's value.
pub open spec fn field_skipped(wire: Wire, tag: u32, bytes: Seq<u8>) -> Option<Seq<u8>> {
    if wire is StartGroup {
        group_skipped(tag, bytes)
    } else {
        plain_skipped(wire, bytes)
    }
}

/// The numbers of two fields of a message, starting from `first` and `second`:
/// of a field that occurs more than once the last number counts. Reading stops
/// where the bytes make no sense; a number that cannot be read counts as zero.
pub open spec fn two_fields(bytes: Seq<u8>, ta: u32, tb: u32, first: u64, second: u64) -> (u64, u64)
    decreases bytes.len(),
{
    match field_key(bytes) {
        Some(k) => {
            let rest = bytes.skip(k.2);
            if !(0 < k.2 <= bytes.len()) {
                (first, second)
            } else if k.1 is Varint && k.0 == ta {
                match varint(rest) {
                    Some(v) => if 0 <= v.1 <= rest.len() {
                        two_fields(rest.skip(v.1), ta, tb, v.0, second)
                    } else {
                        (v.0, second)
                    },
                    None => (0, second),
                }
            } else if k.1 is Varint && k.0 == tb {
                match varint(rest) {
                    Some(v) => if 0 <= v.1 <= rest.len() {
                        two_fields(rest.skip(v.1), ta, tb, first, v.0)
                    } else {
                        (first, v.0)
                    },
                    None => (first, 0),
                }
            } else {
                match field_skipped(k.1, k.0, rest) {
                    Some(r) => if r.len() <= rest.len() {
                        two_fields(r, ta, tb, first, second)
                    } else {
                        (first, second)
                    },
                    None => (first, second),
                }
            }
        },
        None => (first, second),
    }
}

/// Read the numbers of two fields of a message.
fn read_two_fields(bytes: &[u8], ta: u32, tb: u32) -> (r: (u64, u64))
    ensures
        r == two_fields(bytes@, ta, tb, 0, 0),
{
    let mut rest: &[u8] = bytes;
    let mut first: u64 = 0;
    let mut second: u64 = 0;
    loop
        invariant
            two_fields(bytes@, ta, tb, 0, 0) == two_fields(rest@, ta, tb, first, second),
        decreases rest@.len(),
    {
        let ghost start = rest@;
        proof {
            lemma_varint_end(start);
        }
        if rest.len() == 0 {
            return (first, second);
        }
        let (key, after_key) = take_key(rest);
        match key {
            None => {
                return (first, second);
            },
            Some((tag, wire)) => {
                let ghost value = after_key@;
                proof {
                    lemma_varint_end(value);
                }
                if wire == Wire::Varint && (tag == ta || tag == tb) {
                    let (number, after_value) = take_varint(after_key);
                    let n: u64 = match number {
                        Some(v) => v,
                        None => 0,
                    };
                    if tag == ta {
                        first = n;
                    } else {
                        second = n;
                    }
                    if number.is_none() {
                        return (first, second);
                    }
                    rest = after_value;
                } else {
                    match skip_field(wire, tag, after_key) {
                        Some(r) => {
                            rest = r;
                        },
                        None => {
                            return (first, second);
                        },
                    }
                }
            },
        }
    }
}

/// The processes of a container: the current number and the limit.
pub open spec fn pids_in(bytes: Seq<u8>) -> (u64, u64) {
    two_fields(bytes, 1, 2, 0, 0)
}

/// The memory of a container in bytes: what is used and the limit.
pub open spec fn memory_in(bytes: Seq<u8>) -> (u64, u64) {
    two_fields(bytes, 32, 33, 0, 0)
}

/// Read the processes of a container.
pub fn decode_pids(bytes: &[u8]) -> (r: (u64, u64))
    ensures
        r == pids_in(bytes@),
{
    read_two_fields(bytes, 1, 2)
}

/// Read the memory of a container.
pub fn decode_memory(bytes: &[u8]) -> (r: (u64, u64))
    ensures
        r == memory_in(bytes@),
{
    read_two_fields(bytes, 32, 33)
}

/// The memory and the processes of a container in its metrics, starting from
/// what is known. A part that is longer than what is left is passed over.
pub open spec fn metrics_in(bytes: Seq<u8>, memory: (u64, u64), pids: (u64, u64)) -> (
    (u64, u64),
    (u64, u64),
)
    decreases bytes.len(),
{
    match field_key(bytes) {
        Some(k) => {
            let rest = bytes.skip(k.2);
            if !(0 < k.2 <= bytes.len()) {
                (memory, pids)
            } else if k.1 is LengthDelimited && (k.0 == 1 || k.0 == 4) {
                match varint(rest) {
                    Some(v) => if !(0 <= v.1 <= rest.len()) {
                        (memory, pids)
                    } else if v.0 > rest.len() - v.1 {
                        metrics_in(rest.skip(v.1), memory, pids)
                    } else {
                        let part = rest.skip(v.1).take(v.0 as int);
                        let next = rest.skip(v.1).skip(v.0 as int);
                        if k.0 == 1 {
                            metrics_in(next, memory, pids_in(part))
                        } else {
                            metrics_in(next, memory_in(part), pids)
                        }
                    },
                    None => (memory, pids),
                }
            } else {
                match field_skipped(k.1, k.0, rest) {
                    Some(r) => if r.len() <= rest.len() {
                        metrics_in(r, memory, pids)
                    } else {
                        (memory, pids)
                    },
                    None => (memory, pids),
                }
            }
        },
        None => (memory, pids),
    }
}

/// Read the memory in use, its limit, the number of processes and its limit
/// from a container's metrics. What is not there counts as zero.
pub fn decode_cgroup_v2(bytes: &[u8]) -> (r: (u64, u64, u64, u64))
    ensures
        ((r.0, r.1), (r.2, r.3)) == metrics_in(bytes@, (0, 0), (0, 0)),
{
    let mut rest: &[u8] = bytes;
    let mut memory: (u64, u64) = (0, 0);
    let mut pids: (u64, u64) = (0, 0);
    loop
        invariant
            metrics_in(bytes@, (0, 0), (0, 0)) == metrics_in(rest@, memory, pids),
        decreases rest@.len(),
    {
        let ghost start = rest@;
        proof {
            lemma_varint_end(start);
        }
        if rest.len() == 0 {
            return (memory.0, memory.1, pids.0, pids.1);
        }
        let (key, after_key) = take_key(rest);
        match key {
            None => {
                return (memory.0, memory.1, pids.0, pids.1);
            },
            Some((tag, wire)) => {
                let ghost value = after_key@;
                proof {
                    lemma_varint_end(value);
                }
                if wire == Wire::LengthDelimited && (tag == 1 || tag == 4) {
                    let (number, after_length) = take_varint(after_key);
                    match number {
                        None => {
                            return (memory.0, memory.1, pids.0, pids.1);
                        },
                        Some(len) => {
                            if len > after_length.len() as u64 {
                                rest = after_length;
                            } else {
                                let (part, next) = after_length.split_at(len as usize);
                                assert(part@ =~= value.skip((varint(value)->0).1).take(len as int));
                                assert(next@ =~= value.skip((varint(value)->0).1).skip(len as int));
                                if tag == 1 {
                                    pids = decode_pids(part);
                                } else {
                                    memory = decode_memory(part);
                                }
                                rest = next;
                            }
                        },
                    }
                } else {
                    match skip_field(wire, tag, after_key) {
                        Some(r) => {
                            rest = r;
                        },
                        None => {
                            return (memory.0, memory.1, pids.0, pids.1);
                        },
                    }
                }
            },
        }
    }
}

/// The counters of a container, as far as its metrics hold them: traffic is not
/// counted there.
pub struct ContainerCounters {
    pub memory: MemoryStats,
    pub network: NetworkStats,
    pub disk_io: DiskIoStats,
    pub pids: PidStats,
}

/// The counters of a container, from its metrics.
pub fn counters_of(metrics: &[u8]) -> (r: ContainerCounters)
    ensures
        ({
            let (memory, pids) = metrics_in(metrics@, (0, 0), (0, 0));
            &&& r.memory == (MemoryStats { usage_bytes: memory.0, limit_bytes: memory.1 })
            &&& r.pids == (PidStats { current: pids.0, limit: pids.1 })
            &&& r.network == (NetworkStats {
                rx_bytes: 0,
                tx_bytes: 0,
                rx_packets: 0,
                tx_packets: 0,
            })
            &&& r.disk_io == (DiskIoStats { read_bytes: 0, write_bytes: 0 })
        }),
{
    let (usage, limit, current, pid_limit) = decode_cgroup_v2(metrics);
    ContainerCounters {
        memory: MemoryStats { usage_bytes: usage, limit_bytes: limit },
        network: NetworkStats { rx_bytes: 0, tx_bytes: 0, rx_packets: 0, tx_packets: 0 },
        disk_io: DiskIoStats { read_bytes: 0, write_bytes: 0 },
        pids: PidStats { current, limit: pid_limit },
    }
}

/// The filter that selects the metrics of one container.
pub fn metrics_filter(instance_id: &str) -> (r: String)
    ensures
        r@ == "id=="@ + instance_id@,
{
    cat2("id==", instance_id)
}

// ---------------------------------------------------------------------------
// Laws
// ---------------------------------------------------------------------------

/// One number of a message is read, and the rest of it is read on.
proof fn lemma_number_field(
    tag: u32,
    n: u64,
    rest: Seq<u8>,
    ta: u32,
    tb: u32,
    first: u64,
    second: u64,
)
    requires
        1 <= tag < 0x2000_0000,
        tag == ta || tag == tb,
    ensures
        two_fields(number_field(tag, n) + rest, ta, tb, first, second) == if tag == ta {
            two_fields(rest, ta, tb, n, second)
        } else {
            two_fields(rest, ta, tb, first, n)
        },
{
    let key = encoded((tag * 8) as nat);
    let value = encoded(n as nat);
    let all = number_field(tag, n) + rest;
    assert(all =~= key + (value + rest));
    law_key_reads_back(tag, 0, value + rest);
    law_number_reads_back(n, rest);
    lemma_varint_end(all);
    assert(all.skip(key.len() as int) =~= value + rest);
    assert((value + rest).skip(value.len() as int) =~= rest);
}

/// Two numbers that are written under their tags are read back.
pub proof fn law_two_fields_read_back(ta: u32, tb: u32, a: u64, b: u64)
    requires
        1 <= ta < 0x2000_0000,
        1 <= tb < 0x2000_0000,
        ta != tb,
    ensures
        two_fields(number_field(ta, a) + number_field(tb, b), ta, tb, 0, 0) == (a, b),
{
    let none = Seq::<u8>::empty();
    lemma_number_field(ta, a, number_field(tb, b), ta, tb, 0, 0);
    assert(number_field(tb, b) + none =~= number_field(tb, b));
    lemma_number_field(tb, b, none, ta, tb, a, 0);
    lemma_nothing_to_read();
}

/// Nothing is read where there are no bytes.
proof fn lemma_nothing_to_read()
    ensures
        field_key(Seq::<u8>::empty()) is None,
{
}

/// One part of the metrics is read, and the rest of them is read on.
proof fn lemma_part(
    tag: u32,
    payload: Seq<u8>,
    rest: Seq<u8>,
    memory: (u64, u64),
    pids: (u64, u64),
)
    requires
        tag == 1 || tag == 4,
        payload.len() <= u64::MAX,
    ensures
        metrics_in(bytes_field(tag, payload) + rest, memory, pids) == if tag == 1 {
            metrics_in(rest, memory, pids_in(payload))
        } else {
            metrics_in(rest, memory_in(payload), pids)
        },
{
    let key = encoded((tag * 8 + 2) as nat);
    let len = encoded(payload.len());
    let body = payload + rest;
    let all = bytes_field(tag, payload) + rest;
    assert(all =~= key + (len + body));
    law_key_reads_back(tag, 2, len + body);
    law_number_reads_back(payload.len() as u64, body);
    lemma_varint_end(all);
    assert(all.skip(key.len() as int) =~= len + body);
    assert((len + body).skip(len.len() as int) =~= body);
    assert(body.take(payload.len() as int) =~= payload);
    assert(body.skip(payload.len() as int) =~= rest);
}

/// The counters that metrics were written with are read back from them.
pub proof fn law_metrics_read_back(usage: u64, limit: u64, current: u64, max: u64)
    ensures
        metrics_in(
            bytes_field(1, number_field(1, current) + number_field(2, max)) + bytes_field(
                4,
                number_field(32, usage) + number_field(33, limit),
            ),
            (0, 0),
            (0, 0),
        ) == ((usage, limit), (current, max)),
{
    let none = Seq::<u8>::empty();
    let pids = number_field(1, current) + number_field(2, max);
    let memory = number_field(32, usage) + number_field(33, limit);
    lemma_number_field_len(1, current);
    lemma_number_field_len(2, max);
    lemma_number_field_len(32, usage);
    lemma_number_field_len(33, limit);
    law_two_fields_read_back(1, 2, current, max);
    law_two_fields_read_back(32, 33, usage, limit);
    lemma_part(1, pids, bytes_field(4, memory), (0, 0), (0, 0));
    assert(bytes_field(4, memory) + none =~= bytes_field(4, memory));
    lemma_part(4, memory, none, (0, 0), (current, max));
    lemma_nothing_to_read();
}

/// A field with a number takes at most twenty bytes.
proof fn lemma_number_field_len(tag: u32, n: u64)
    requires
        1 <= tag < 0x2000_0000,
    ensures
        number_field(tag, n).len() <= 20,
{
    let none = Seq::<u8>::empty();
    law_number_reads_back((tag * 8) as u64, none);
    law_number_reads_back(n, none);
}

/// The counters are read from the metrics whichever of the two parts comes
/// first, and of a number that is written twice the later one counts.
pub proof fn law_counters_are_read(
    usage: u64,
    limit: u64,
    current: u64,
    max: u64,
    stale: u64,
    bytes: &[u8],
    swapped: &[u8],
    r: ContainerCounters,
    of_swapped: ContainerCounters,
)
    requires
        bytes@ == bytes_field(1, number_field(1, current) + number_field(2, max)) + bytes_field(
            4,
            number_field(32, usage) + number_field(33, limit),
        ),
        swapped@ == bytes_field(
            4,
            number_field(32, stale) + (number_field(33, limit) + number_field(32, usage)),
        ) + bytes_field(1, number_field(2, max) + number_field(1, current)),
        call_ensures(counters_of, (bytes,), r),
        call_ensures(counters_of, (swapped,), of_swapped),
    ensures
        r.memory.usage_bytes == usage,
        r.memory.limit_bytes == limit,
        r.pids.current == current,
        r.pids.limit == max,
        of_swapped.memory == r.memory,
        of_swapped.pids == r.pids,
        r.network.rx_bytes == 0 && r.network.tx_bytes == 0,
        r.disk_io.read_bytes == 0 && r.disk_io.write_bytes == 0,
{
    law_metrics_read_back(usage, limit, current, max);
    let none = Seq::<u8>::empty();
    let back = number_field(33, limit) + number_field(32, usage);
    let memory = number_field(32, stale) + back;
    let pids = number_field(2, max) + number_field(1, current);
    lemma_number_field_len(1, current);
    lemma_number_field_len(2, max);
    lemma_number_field_len(32, usage);
    lemma_number_field_len(32, stale);
    lemma_number_field_len(33, limit);
    lemma_nothing_to_read();
    lemma_number_field(32, stale, back, 32, 33, 0, 0);
    lemma_number_field(33, limit, number_field(32, usage), 32, 33, stale, 0);
    assert(number_field(32, usage) + none =~= number_field(32, usage));
    lemma_number_field(32, usage, none, 32, 33, stale, limit);
    lemma_number_field(2, max, number_field(1, current), 1, 2, 0, 0);
    assert(number_field(1, current) + none =~= number_field(1, current));
    lemma_number_field(1, current, none, 1, 2, 0, max);
    lemma_part(4, memory, bytes_field(1, pids), (0, 0), (0, 0));
    assert(bytes_field(1, pids) + none =~= bytes_field(1, pids));
    lemma_part(1, pids, none, (usage, limit), (0, 0));
}

/// Numbers are read from the part that they are written in and under their own
/// tags, in whichever order; what is not written is zero.
pub proof fn law_parts_are_read_by_their_tags(
    usage: u64,
    limit: u64,
    current: u64,
    max: u64,
    memory: &[u8],
    pids: &[u8],
    bytes: &[u8],
    m: (u64, u64),
    p: (u64, u64),
    all: (u64, u64, u64, u64),
)
    requires
        memory@ == number_field(32, usage) + number_field(33, limit),
        pids@ == number_field(1, current) + number_field(2, max),
        bytes@ == bytes_field(1, pids@) + bytes_field(4, memory@),
        call_ensures(decode_memory, (memory,), m),
        call_ensures(decode_pids, (pids,), p),
        call_ensures(decode_cgroup_v2, (bytes,), all),
    ensures
        m == (usage, limit),
        p == (current, max),
        all == (usage, limit, current, max),
{
    law_two_fields_read_back(1, 2, current, max);
    law_two_fields_read_back(32, 33, usage, limit);
    law_metrics_read_back(usage, limit, current, max);
}

} // verus!
