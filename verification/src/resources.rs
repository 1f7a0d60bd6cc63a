//! Host-memory admission: a deployment that asks for more memory than the host
//! has available is refused before anything is created for it. CPU is not
//! gated, since overcommitting it is not fatal.
use vstd::prelude::*;
use crate::error::{RuntimeError, RuntimeErrorView};
use crate::foreign::available_memory;
use crate::models::{Deployment, ResourceSpec};
use crate::quantities::{cpu_value, memory_value, parse_cpu_string, parse_memory_string};
use crate::text::{cat7, contains, decimal, decimal_i64, occurs_at, signed_decimal};

verus! {

/// The memory that one side of a resource declaration writes, where it writes
/// any that can be read.
pub open spec fn spec_memory(spec: Option<ResourceSpec>) -> Option<int> {
    match spec {
        Some(s) => match s.memory {
            Some(m) => memory_value(m@),
            None => None,
        },
        None => None,
    }
}

/// The CPU share that one side of a resource declaration writes, where it
/// writes any that can be read.
pub open spec fn spec_cpu(spec: Option<ResourceSpec>) -> Option<int> {
    match spec {
        Some(s) => match s.cpu {
            Some(c) => cpu_value(c@),
            None => None,
        },
        None => None,
    }
}

/// The memory that one side of a resource declaration writes.
pub fn declared_memory(spec: &Option<ResourceSpec>) -> (r: Option<i64>)
    ensures
        match spec_memory(*spec) {
            Some(v) => r == Some(v as i64) && v <= i64::MAX && v >= 0,
            None => r is None,
        },
{
    match spec {
        Some(s) => match &s.memory {
            Some(m) => match parse_memory_string(m.as_str()) {
                Ok(v) => Some(v),
                Err(_) => None,
            },
            None => None,
        },
        None => None,
    }
}

/// The CPU share that one side of a resource declaration writes, in billionths
/// of a core.
pub fn declared_cpu(spec: &Option<ResourceSpec>) -> (r: Option<i64>)
    ensures
        match spec_cpu(*spec) {
            Some(v) => r == Some(v as i64) && v <= i64::MAX && v >= 0,
            None => r is None,
        },
{
    match spec {
        Some(s) => match &s.cpu {
            Some(c) => match parse_cpu_string(c.as_str()) {
                Ok(v) => Some(v),
                Err(_) => None,
            },
            None => None,
        },
        None => None,
    }
}

/// The memory that a deployment is admitted against: what it requests, or else
/// its limit.
pub open spec fn required_memory(d: &Deployment) -> Option<int> {
    match d.resources {
        Some(r) => match spec_memory(r.requests) {
            Some(v) => Some(v),
            None => spec_memory(r.limits),
        },
        None => None,
    }
}

/// The memory in bytes that a deployment is admitted against: what it requests,
/// or else its limit. `None` where it declares neither.
pub fn required_memory_bytes(deployment: &Deployment) -> (r: Option<i64>)
    ensures
        match required_memory(deployment) {
            Some(v) => r == Some(v as i64) && v <= i64::MAX && v >= 0,
            None => r is None,
        },
{
    match &deployment.resources {
        Some(resources) => match declared_memory(&resources.requests) {
            Some(v) => Some(v),
            None => declared_memory(&resources.limits),
        },
        None => None,
    }
}

/// Whole mebibytes, rounded towards zero.
pub open spec fn whole_mib(bytes: int) -> int {
    if bytes >= 0 {
        bytes / 1_048_576
    } else {
        -((-bytes) / 1_048_576)
    }
}

/// Whole mebibytes, rounded towards zero.
fn mib(bytes: i64) -> (r: i64)
    ensures
        r == whole_mib(bytes as int),
{
    if bytes >= 0 {
        bytes / 1_048_576
    } else {
        let size: u64 = (-(bytes + 1)) as u64 + 1;
        -((size / 1_048_576) as i64)
    }
}

/// The message of a refusal: it names what is needed and what there is.
pub open spec fn refusal(name: Seq<char>, required: int, available: int) -> Seq<char> {
    "insufficient host memory for '"@ + name + "': needs "@ + signed_decimal(whole_mib(required))
        + " MiB but only "@ + signed_decimal(whole_mib(available))
        + " MiB is available — free memory on the host or lower resources.requests.memory / resources.limits.memory"@
}

/// Compare what a deployment needs with what is available. Exactly enough is
/// enough.
pub fn check_against(deployment_name: &str, required_bytes: i64, available_bytes: i64) -> (r: Result<
    (),
    RuntimeError,
>)
    ensures
        r is Ok <==> required_bytes <= available_bytes,
        r matches Err(e) ==> e@ == RuntimeErrorView::InsufficientResources(
            refusal(deployment_name@, required_bytes as int, available_bytes as int),
        ),
{
    if required_bytes <= available_bytes {
        return Ok(());
    }
    let needs = decimal_i64(mib(required_bytes));
    let has_only = decimal_i64(mib(available_bytes));
    Err(
        RuntimeError::InsufficientResources(
            cat7(
                "insufficient host memory for '",
                deployment_name,
                "': needs ",
                needs.as_str(),
                " MiB but only ",
                has_only.as_str(),
                " MiB is available — free memory on the host or lower resources.requests.memory / resources.limits.memory",
            ),
        ),
    )
}

/// Admit a deployment, given the memory that the host has available in bytes.
/// One that declares no memory is always admitted.
pub fn check_memory(deployment: &Deployment, available: i64) -> (r: Result<(), RuntimeError>)
    ensures
        match required_memory(deployment) {
            Some(needed) => {
                &&& r is Ok <==> needed <= available
                &&& r matches Err(e) ==> e@ == RuntimeErrorView::InsufficientResources(
                    refusal(deployment.name@, needed, available as int),
                )
            },
            None => r is Ok,
        },
{
    match required_memory_bytes(deployment) {
        Some(required) => check_against(deployment.name.as_str(), required, available),
        None => Ok(()),
    }
}

/// The number that the bits of a number stand for with a sign.
pub open spec fn signed_bits(n: u64) -> int {
    if n <= i64::MAX {
        n as int
    } else {
        n - 0x1_0000_0000_0000_0000
    }
}

/// The memory that is admitted against, given what the host says that it has
/// available: as many bytes, and none where the host cannot be looked at.
pub open spec fn bytes_reported(available: Option<u64>) -> int {
    match available {
        Some(n) => signed_bits(n),
        None => 0,
    }
}

/// The memory that is admitted against, given what the host says that it has
/// available.
pub fn reported_bytes(available: Option<u64>) -> (r: i64)
    ensures
        r == bytes_reported(available),
{
    match available {
        Some(n) => if n <= i64::MAX as u64 {
            n as i64
        } else {
            -((u64::MAX - n) as i64) - 1
        },
        None => 0,
    }
}

/// Whether a refusal names what a deployment needs and an amount of memory that
/// is less than that.
pub open spec fn is_refusal(d: &Deployment, e: RuntimeErrorView) -> bool {
    exists|available: i64|
        (required_memory(d) matches Some(needed) && available < needed) && e
            == RuntimeErrorView::InsufficientResources(
            #[trigger] refusal(d.name@, required_memory(d)->0, available as int),
        )
}

/// Admit a deployment against the memory that the host has available now. How
/// much that is decides; one that declares no memory is always admitted, and a
/// refusal names what is needed and what there is.
pub fn check_host_memory(deployment: &Deployment) -> (r: Result<(), RuntimeError>)
    ensures
        required_memory(deployment) is None ==> r is Ok,
        r matches Err(e) ==> is_refusal(deployment, e@),
{
    if required_memory_bytes(deployment).is_none() {
        return Ok(());
    }
    let available: i64 = reported_bytes(available_memory());
    check_memory(deployment, available)
}

/// A deployment that is admitted stays admitted when more memory is available.
pub proof fn law_admission_is_monotone(d: &Deployment, less: int, more: int)
    requires
        less <= more,
    ensures
        (required_memory(d) matches Some(needed) ==> needed <= less) ==> (required_memory(
            d,
        ) matches Some(needed) ==> needed <= more),
{
}

/// What is declared is what the text says, and nothing where there is none or it
/// cannot be read.
pub proof fn law_declared_amounts_are_read(
    spec: &Option<ResourceSpec>,
    memory: &str,
    cpu: &str,
    read_memory: Result<i64, String>,
    read_cpu: Result<i64, String>,
    m: Option<i64>,
    c: Option<i64>,
)
    requires
        *spec matches Some(s) ==> (s.memory matches Some(t) ==> t@ == memory@),
        *spec matches Some(s) ==> (s.cpu matches Some(t) ==> t@ == cpu@),
        call_ensures(parse_memory_string, (memory,), read_memory),
        call_ensures(parse_cpu_string, (cpu,), read_cpu),
        call_ensures(declared_memory, (spec,), m),
        call_ensures(declared_cpu, (spec,), c),
    ensures
        *spec is None ==> m is None && c is None,
        *spec matches Some(s) ==> {
            &&& m is Some <==> s.memory is Some && read_memory is Ok
            &&& m matches Some(v) ==> read_memory == Ok::<i64, String>(v)
            &&& c is Some <==> s.cpu is Some && read_cpu is Ok
            &&& c matches Some(v) ==> read_cpu == Ok::<i64, String>(v)
        },
{
}

/// A request counts before a limit, and a limit where there is no request.
pub proof fn law_request_counts_before_limit(
    d: &Deployment,
    requests: &Option<ResourceSpec>,
    limits: &Option<ResourceSpec>,
    requested: Option<i64>,
    limit: Option<i64>,
    r: Option<i64>,
)
    requires
        d.resources matches Some(res) ==> res.requests == *requests && res.limits == *limits,
        call_ensures(declared_memory, (requests,), requested),
        call_ensures(declared_memory, (limits,), limit),
        call_ensures(required_memory_bytes, (d,), r),
    ensures
        d.resources is None ==> r is None,
        d.resources is Some && requested is Some ==> r == requested,
        d.resources is Some && requested is None ==> r == limit,
{
}

/// A deployment is refused exactly where it needs more than there is, and one that
/// needs nothing never. The refusal names it, and both amounts in whole mebibytes.
pub proof fn law_refusal_names_both_amounts(
    d: &Deployment,
    needed: Option<i64>,
    available: i64,
    r: Result<(), RuntimeError>,
)
    requires
        call_ensures(required_memory_bytes, (d,), needed),
        call_ensures(check_memory, (d, available), r),
    ensures
        r is Err <==> (needed matches Some(n) && n > available),
        r matches Err(e) ==> (e@ matches RuntimeErrorView::InsufficientResources(text) && contains(
            text,
            d.name@,
        ) && (available >= 0 ==> contains(
            text,
            "needs "@ + decimal((needed->0 / 1_048_576) as nat) + " MiB but only "@ + decimal(
                (available / 1_048_576) as nat,
            ) + " MiB is available"@,
        ))),
{
    if r is Err {
        let n = needed->0;
        let a = "insufficient host memory for '"@;
        let x = signed_decimal(whole_mib(n as int));
        let y = signed_decimal(whole_mib(available as int));
        let end = " MiB is available — free memory on the host or lower resources.requests.memory / resources.limits.memory"@;
        let text = a + d.name@ + "': needs "@ + x + " MiB but only "@ + y + end;
        assert(r->Err_0@ == RuntimeErrorView::InsufficientResources(text));
        assert(text.subrange(a.len() as int, (a.len() + d.name@.len()) as int) =~= d.name@);
        assert(occurs_at(text, d.name@, a.len() as int));
        if available >= 0 {
            reveal_strlit("': needs ");
            reveal_strlit("needs ");
            reveal_strlit(" MiB is available");
            reveal_strlit(
                " MiB is available — free memory on the host or lower resources.requests.memory / resources.limits.memory",
            );
            let part = "needs "@ + x + " MiB but only "@ + y + " MiB is available"@;
            let k = (a.len() + d.name@.len() + 3) as int;
            assert("': needs "@.skip(3) =~= "needs "@);
            assert(end.take(17) =~= " MiB is available"@);
            let head = a + d.name@ + "': needs "@.take(3);
            assert("': needs "@ =~= "': needs "@.take(3) + "needs "@);
            assert(end =~= " MiB is available"@ + end.skip(17));
            assert(text =~= head + part + end.skip(17));
            assert(text.subrange(k, k + part.len()) =~= part);
            assert(occurs_at(text, part, k));
        }
    }
}

/// What the host reports counts as it is, a number too large for a sign as the
/// negative one with the same bits, and no report as nothing.
pub proof fn law_unreadable_host_has_no_memory(available: Option<u64>, r: i64)
    requires
        call_ensures(reported_bytes, (available,), r),
    ensures
        available is None ==> r == 0,
        available matches Some(n) ==> (r - n) % 0x1_0000_0000_0000_0000 == 0,
        available matches Some(n) ==> (r >= 0 <==> n <= i64::MAX),
{
}

} // verus!
