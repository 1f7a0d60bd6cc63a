//! The virtual machines behind one deployment.
use vstd::prelude::*;
use crate::cloud_hypervisor::console_logs::{apply_tail, opt_view, tailed};
use crate::lifecycle_trait::{Log, LogView, logs};
use crate::models::{Deployment, HealthCheck, HealthCheckStatus};
use crate::paths::{instance_file, instance_path};
use crate::quantities::{duration_value, parse_duration};
use crate::text::{byte_prefix, cat2, cat3, cuts_cleanly, decimal, decimal_u64, first_bytes, lines, lines_of, opt_str, same, str_pairs, strs};

verus! {

/// The runtime of one deployment: the deployment's id and name, and the
/// directory of the control sockets.
#[derive(Debug)]
pub struct CloudHypervisorRuntime {
    pub deployment_id: String,
    pub deployment_name: String,
    pub socket_dir: String,
}

/// The name that an instance is shown under.
pub open spec fn display_name(deployment: Seq<char>, id: Seq<char>) -> Seq<char> {
    deployment + "_"@ + byte_prefix(id, 12)
}

/// What a console line is reported as.
pub open spec fn console_line(instance: Seq<char>, message: Seq<char>) -> LogView {
    LogView { instance, message, level: "info"@, timestamp: None }
}

impl CloudHypervisorRuntime {
    /// The runtime of a deployment.
    pub fn new(deployment: &Deployment, socket_dir: String) -> (r: Self)
        ensures
            r.deployment_id@ == deployment.id@,
            r.deployment_name@ == deployment.name@,
            r.socket_dir == socket_dir,
    {
        CloudHypervisorRuntime {
            deployment_id: deployment.id.clone(),
            deployment_name: deployment.name.clone(),
            socket_dir,
        }
    }

    /// The control socket of an instance.
    pub fn socket_path(&self, instance_id: &str) -> (r: String)
        ensures
            r@ == instance_file(self.socket_dir@, instance_id@, ".sock"@),
    {
        instance_path(self.socket_dir.as_str(), instance_id, ".sock")
    }

    /// The console log of an instance.
    pub fn log_path(&self, instance_id: &str) -> (r: String)
        ensures
            r@ == instance_file(self.socket_dir@, instance_id@, ".log"@),
    {
        instance_path(self.socket_dir.as_str(), instance_id, ".log")
    }

    /// The instances with the names that they are shown under.
    pub fn list_instances_with_names(&self, ids: &Vec<String>) -> (r: Vec<(String, String)>)
        requires
            forall|i: int| 0 <= i < ids.len() ==> cuts_cleanly((#[trigger] ids@[i])@, 12),
        ensures
            str_pairs(r@) == strs(ids@).map_values(
                |id: Seq<char>| (id, display_name(self.deployment_name@, id)),
            ),
    {
        let mut out: Vec<(String, String)> = Vec::new();
        let mut i: usize = 0;
        while i < ids.len()
            invariant
                i <= ids.len(),
                out.len() == i,
                forall|j: int| 0 <= j < ids.len() ==> cuts_cleanly((#[trigger] ids@[j])@, 12),
                forall|j: int|
                    0 <= j < i ==> (#[trigger] out@[j]).0@ == ids@[j]@ && out@[j].1@
                        == display_name(self.deployment_name@, ids@[j]@),
            decreases ids.len() - i,
        {
            let short = first_bytes(ids[i].as_str(), 12);
            let name = cat3(self.deployment_name.as_str(), "_", short.as_str());
            out.push((ids[i].clone(), name));
            i += 1;
        }
        assert(str_pairs(out@) =~= strs(ids@).map_values(
            |id: Seq<char>| (id, display_name(self.deployment_name@, id)),
        ));
        out
    }
}

/// The last lines of an instance's console log as they are reported.
pub fn console_logs(instance_id: &str, content: &str, tail: Option<&str>) -> (r: Vec<Log>)
    ensures
        logs(r@) == tailed(lines(content@), opt_view(tail)).map_values(
            |m: Seq<char>| console_line(instance_id@, m),
        ),
{
    let list = apply_tail(lines_of(content), tail);
    let mut out: Vec<Log> = Vec::new();
    let mut i: usize = 0;
    while i < list.len()
        invariant
            i <= list.len(),
            out.len() == i,
            forall|j: int|
                0 <= j < i ==> (#[trigger] out@[j])@ == console_line(instance_id@, list@[j]@),
        decreases list.len() - i,
    {
        out.push(
            Log {
                instance: instance_id.to_owned(),
                level: "info".to_owned(),
                timestamp: None,
                message: list[i].clone(),
            },
        );
        i += 1;
    }
    assert(logs(out@) =~= strs(list@).map_values(|m: Seq<char>| console_line(instance_id@, m)));
    out
}

/// The probe that a health check of a VM comes to.
#[derive(Debug)]
pub enum VmProbe {
    /// Connect to this address within this time.
    Tcp { address: String, timeout_nanos: i64 },
    /// Fetch this URL within this time.
    Http { url: String, timeout_nanos: i64 },
    /// The result is known without a probe.
    Answer(HealthCheckStatus, Option<String>),
}

/// A span of time in nanoseconds; five seconds where it cannot be read.
pub open spec fn timeout_or_default(text: Seq<char>) -> int {
    match duration_value(text) {
        Some(n) => n,
        None => 5_000_000_000,
    }
}

/// A span of time in nanoseconds; five seconds where it cannot be read.
fn timeout_nanos(text: &str) -> (r: i64)
    ensures
        r == timeout_or_default(text@) as i64,
{
    match parse_duration(text) {
        Some(n) => n,
        None => 5_000_000_000,
    }
}

/// The probe that a health check comes to, given the state of the VM or the
/// text of the error where it could not be had. Only a VM that is running is
/// probed, and commands cannot be run in it.
pub fn plan_health_check(state: &Result<String, String>, check: &HealthCheck) -> (r: VmProbe)
    ensures
        match *state {
            Err(e) => r matches VmProbe::Answer(status, msg) && status
                == HealthCheckStatus::Failed && opt_str(msg) == Some(
                "Failed to get VM info: "@ + e@,
            ),
            Ok(s) => if s@ != "Running"@ {
                r matches VmProbe::Answer(status, msg) && status == HealthCheckStatus::Failed
                    && opt_str(msg) == Some("VM is not running (state: "@ + s@ + ")"@)
            } else {
                match *check {
                    HealthCheck::Tcp { port, timeout, .. } => r matches VmProbe::Tcp {
                        address,
                        timeout_nanos,
                    } && address@ == "127.0.0.1:"@ + decimal(port as nat) && timeout_nanos
                        == timeout_or_default(timeout@) as i64,
                    HealthCheck::Http { url, timeout, .. } => r matches VmProbe::Http {
                        url: target,
                        timeout_nanos,
                    } && target@ == url@ && timeout_nanos == timeout_or_default(timeout@) as i64,
                    HealthCheck::Command { .. } => r matches VmProbe::Answer(status, msg)
                        && status == HealthCheckStatus::Failed && opt_str(msg) == Some(
                        "Command health checks not supported for Cloud Hypervisor VMs"@,
                    ),
                }
            },
        },
{
    match state {
        Err(e) => VmProbe::Answer(
            HealthCheckStatus::Failed,
            Some(cat2("Failed to get VM info: ", e.as_str())),
        ),
        Ok(s) => {
            if !same(s.as_str(), "Running") {
                return VmProbe::Answer(
                    HealthCheckStatus::Failed,
                    Some(cat3("VM is not running (state: ", s.as_str(), ")")),
                );
            }
            match check {
                HealthCheck::Tcp { port, timeout, .. } => {
                    let number = decimal_u64(*port as u64);
                    VmProbe::Tcp {
                        address: cat2("127.0.0.1:", number.as_str()),
                        timeout_nanos: timeout_nanos(timeout.as_str()),
                    }
                },
                HealthCheck::Http { url, timeout, .. } => VmProbe::Http {
                    url: url.clone(),
                    timeout_nanos: timeout_nanos(timeout.as_str()),
                },
                HealthCheck::Command { .. } => VmProbe::Answer(
                    HealthCheckStatus::Failed,
                    Some("Command health checks not supported for Cloud Hypervisor VMs".to_owned()),
                ),
            }
        },
    }
}

/// What came of an attempt to connect.
#[derive(Debug)]
pub enum TcpOutcome {
    Connected,
    Refused(String),
    TimedOut,
}

/// The result of a TCP probe.
pub fn tcp_result(outcome: &TcpOutcome) -> (r: (HealthCheckStatus, Option<String>))
    ensures
        (r.0, opt_str(r.1)) == match *outcome {
            TcpOutcome::Connected => (HealthCheckStatus::Success, None),
            TcpOutcome::Refused(e) => (
                HealthCheckStatus::Failed,
                Some("TCP connection failed: "@ + e@),
            ),
            TcpOutcome::TimedOut => (
                HealthCheckStatus::Timeout,
                Some("TCP health check timed out"@),
            ),
        },
{
    match outcome {
        TcpOutcome::Connected => (HealthCheckStatus::Success, None),
        TcpOutcome::Refused(e) => (
            HealthCheckStatus::Failed,
            Some(cat2("TCP connection failed: ", e.as_str())),
        ),
        TcpOutcome::TimedOut => (
            HealthCheckStatus::Timeout,
            Some("TCP health check timed out".to_owned()),
        ),
    }
}

/// The result of an HTTP probe, given the status of the answer and its text, or
/// the text of the error.
pub fn http_result(answer: &Result<(u16, String), String>) -> (r: (HealthCheckStatus, Option<String>))
    ensures
        (r.0, opt_str(r.1)) == match *answer {
            Ok(status) => if 200 <= status.0 < 300 {
                (HealthCheckStatus::Success, None)
            } else {
                (HealthCheckStatus::Failed, Some("HTTP status: "@ + status.1@))
            },
            Err(e) => (HealthCheckStatus::Failed, Some("HTTP request failed: "@ + e@)),
        },
{
    match answer {
        Ok(status) => {
            if 200 <= status.0 && status.0 < 300 {
                (HealthCheckStatus::Success, None)
            } else {
                (HealthCheckStatus::Failed, Some(cat2("HTTP status: ", status.1.as_str())))
            }
        },
        Err(e) => (HealthCheckStatus::Failed, Some(cat2("HTTP request failed: ", e.as_str()))),
    }
}

// ---------------------------------------------------------------------------
// Laws
// ---------------------------------------------------------------------------

/// Only a VM that is running is probed, at its own port on this host or at the
/// check's URL; any other state, no state, and a command are answered with a
/// failure at once.
pub proof fn law_only_running_vms_are_probed(
    state: &Result<String, String>,
    check: &HealthCheck,
    r: VmProbe,
)
    requires
        call_ensures(plan_health_check, (state, check), r),
    ensures
        r is Answer <==> *check is Command || !(*state matches Ok(s) && s@ == "Running"@),
        r matches VmProbe::Answer(status, msg) ==> status == HealthCheckStatus::Failed && msg
            is Some,
        r is Tcp ==> *check is Tcp,
        r is Http ==> *check is Http,
        *check matches HealthCheck::Tcp { port, timeout, .. } ==> (r matches VmProbe::Tcp {
            address,
            timeout_nanos,
        } ==> "127.0.0.1:"@.is_prefix_of(address@) && decimal(port as nat).is_suffix_of(address@)),
        *check matches HealthCheck::Http { url, timeout, .. } ==> (r matches VmProbe::Http {
            url: target,
            timeout_nanos,
        } ==> target@ == url@),
{
    if let HealthCheck::Tcp { port, timeout, .. } = *check {
        if let VmProbe::Tcp { address, timeout_nanos } = r {
            let number = decimal(port as nat);
            let host = "127.0.0.1:"@;
            assert(address@.subrange(0, host.len() as int) =~= host);
            assert(address@.subrange(address@.len() - number.len(), address@.len() as int)
                =~= number);
        }
    }
}

/// The time that a probe is given is the check's own, or five seconds where that
/// cannot be read.
pub proof fn law_probe_is_given_its_time(
    state: &Result<String, String>,
    check: &HealthCheck,
    r: VmProbe,
    text: &str,
    own: Option<i64>,
)
    requires
        call_ensures(plan_health_check, (state, check), r),
        *check matches HealthCheck::Tcp { timeout, .. } ==> text@ == timeout@,
        *check matches HealthCheck::Http { timeout, .. } ==> text@ == timeout@,
        call_ensures(parse_duration, (text,), own),
    ensures
        r matches VmProbe::Tcp { timeout_nanos, .. } ==> (own matches Some(n) ==> timeout_nanos
            == n) && (own is None ==> timeout_nanos == 5_000_000_000),
        r matches VmProbe::Http { timeout_nanos, .. } ==> (own matches Some(n) ==> timeout_nanos
            == n) && (own is None ==> timeout_nanos == 5_000_000_000),
{
}

/// A TCP probe succeeds exactly where the connection stands, and an HTTP probe
/// exactly where the answer's status is one of the two hundreds; a success says
/// nothing more.
pub proof fn law_probe_succeeds_on_an_answer(
    outcome: &TcpOutcome,
    tcp: (HealthCheckStatus, Option<String>),
    answer: &Result<(u16, String), String>,
    http: (HealthCheckStatus, Option<String>),
)
    requires
        call_ensures(tcp_result, (outcome,), tcp),
        call_ensures(http_result, (answer,), http),
    ensures
        tcp.0 == HealthCheckStatus::Success <==> *outcome is Connected,
        tcp.0 == HealthCheckStatus::Timeout <==> *outcome is TimedOut,
        tcp.1 is None <==> tcp.0 == HealthCheckStatus::Success,
        http.0 == HealthCheckStatus::Success <==> (*answer matches Ok(a) && a.0 / 100 == 2),
        http.0 != HealthCheckStatus::Success ==> http.0 == HealthCheckStatus::Failed,
        http.1 is None <==> http.0 == HealthCheckStatus::Success,
{
}

/// Every instance is shown, in its order, under the deployment's name and the
/// beginning of its id.
pub proof fn law_instances_are_shown_in_order(
    runtime: &CloudHypervisorRuntime,
    ids: &Vec<String>,
    r: Vec<(String, String)>,
)
    requires
        call_ensures(CloudHypervisorRuntime::list_instances_with_names, (runtime, ids), r),
    ensures
        r@.len() == ids@.len(),
        forall|i: int|
            0 <= i < ids@.len() ==> (#[trigger] r@[i]).0@ == ids@[i]@ && r@[i].1@
                == runtime.deployment_name@ + "_"@ + byte_prefix(ids@[i]@, 12),
{
    let shown = strs(ids@).map_values(
        |id: Seq<char>| (id, display_name(runtime.deployment_name@, id)),
    );
    assert(str_pairs(r@).len() == r@.len());
    assert forall|i: int| 0 <= i < ids@.len() implies (#[trigger] r@[i]).0@ == ids@[i]@ && r@[i].1@
        == runtime.deployment_name@ + "_"@ + byte_prefix(ids@[i]@, 12) by {
        assert(str_pairs(r@)[i] == (r@[i].0@, r@[i].1@));
        assert(shown[i] == (strs(ids@)[i], display_name(runtime.deployment_name@, strs(ids@)[i])));
    }
}

/// The lines of a console are reported as they are, in their order, as many as the
/// tail asks for, all of them as information and none with a date.
pub proof fn law_console_lines_are_reported(
    id: &str,
    content: &str,
    tail: Option<&str>,
    all: Vec<String>,
    kept: Vec<String>,
    r: Vec<Log>,
    i: int,
)
    requires
        call_ensures(lines_of, (content,), all),
        call_ensures(apply_tail, (all, tail), kept),
        call_ensures(console_logs, (id, content, tail), r),
        0 <= i < r@.len(),
    ensures
        r@.len() == kept@.len(),
        r@[i].message@ == kept@[i]@,
        r@[i].instance@ == id@,
        r@[i].level@ == "info"@,
        r@[i].timestamp is None,
{
    let views = logs(r@);
    assert(views.len() == r@.len());
    assert(strs(kept@).len() == kept@.len());
    assert(views[i] == r@[i]@);
    assert(strs(kept@)[i] == kept@[i]@);
    assert(views[i] == console_line(id@, kept@[i]@));
    assert(opt_str(r@[i].timestamp) is None);
}

} // verus!
