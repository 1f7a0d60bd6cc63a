//! Resource counters of an instance.
use vstd::prelude::*;

verus! {

/// Network traffic since the instance started.
#[derive(Clone, Copy, Debug, PartialEq, Eq, Structural)]
pub struct NetworkStats {
    pub rx_bytes: u64,
    pub tx_bytes: u64,
    pub rx_packets: u64,
    pub tx_packets: u64,
}

/// Disk traffic since the instance started.
#[derive(Clone, Copy, Debug, PartialEq, Eq, Structural)]
pub struct DiskIoStats {
    pub read_bytes: u64,
    pub write_bytes: u64,
}

/// Processes of an instance.
#[derive(Clone, Copy, Debug, PartialEq, Eq, Structural)]
pub struct PidStats {
    pub current: u64,
    pub limit: u64,
}

/// Memory of an instance. A limit of zero stands for none.
#[derive(Clone, Copy, Debug, PartialEq, Eq, Structural)]
pub struct MemoryStats {
    pub usage_bytes: u64,
    pub limit_bytes: u64,
}

/// The sum of two counters, or the largest number where it is larger.
pub open spec fn saturated(n: int) -> u64 {
    if n > u64::MAX {
        u64::MAX
    } else if n < 0 {
        0
    } else {
        n as u64
    }
}

/// A share of something, as a fraction.
#[derive(Clone, Copy, Debug, PartialEq, Eq, Structural)]
pub struct Ratio {
    pub numerator: u128,
    pub denominator: u128,
}

/// The share that is nothing.
pub open spec fn nothing() -> Ratio {
    Ratio { numerator: 0, denominator: 1 }
}

/// A product of two counters.
pub fn product(a: u64, b: u64) -> (r: u128)
    ensures
        r == a * b,
{
    assert(0 <= a * b <= u128::MAX) by (nonlinear_arith)
        requires
            0 <= a <= u64::MAX,
            0 <= b <= u64::MAX,
    ;
    (a as u128) * (b as u128)
}

/// The memory of an instance.
pub fn memory_stats(usage_bytes: u64, limit_bytes: u64) -> (r: MemoryStats)
    ensures
        r == (MemoryStats { usage_bytes, limit_bytes }),
{
    MemoryStats { usage_bytes, limit_bytes }
}

impl MemoryStats {
    /// The share of its limit that an instance uses; nothing where it has no
    /// limit.
    pub fn usage_ratio(&self) -> (r: Ratio)
        ensures
            r == if self.limit_bytes > 0 {
                Ratio {
                    numerator: self.usage_bytes as u128,
                    denominator: self.limit_bytes as u128,
                }
            } else {
                nothing()
            },
            r.denominator > 0,
    {
        if self.limit_bytes > 0 {
            Ratio {
                numerator: self.usage_bytes as u128,
                denominator: self.limit_bytes as u128,
            }
        } else {
            Ratio { numerator: 0, denominator: 1 }
        }
    }
}

/// The share of memory in use is what is used over the limit, and nothing where
/// there is no limit.
pub proof fn law_memory_share(m: &MemoryStats, r: Ratio)
    requires
        call_ensures(MemoryStats::usage_ratio, (m,), r),
    ensures
        r.denominator > 0,
        m.limit_bytes > 0 ==> r.numerator * m.limit_bytes == m.usage_bytes * r.denominator,
        m.limit_bytes == 0 ==> r.numerator == 0,
{
    if m.limit_bytes > 0 {
        assert(r.numerator * m.limit_bytes == m.usage_bytes * r.denominator) by (nonlinear_arith)
            requires
                r.numerator == m.usage_bytes,
                r.denominator == m.limit_bytes,
        ;
    }
}

} // verus!
