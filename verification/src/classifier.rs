//! Retry or give up: what a failure means for the deployment.
use vstd::prelude::*;
use crate::error::{RuntimeError, RuntimeErrorView, error_text};
use crate::models::{Deployment, DeploymentStatus, MAX_RESTART_COUNT, event};

verus! {

/// Whether trying again can help.
#[derive(Clone, Copy, Debug, PartialEq, Eq, Structural)]
pub enum Disposition {
    Retryable,
    /// Trying again cannot help: the deployment ends in this status.
    Terminal(DeploymentStatus),
}

impl Disposition {
    /// Whether trying again cannot help.
    pub fn is_terminal(&self) -> (r: bool)
        ensures
            r == (*self is Terminal),
    {
        match self {
            Disposition::Terminal(_) => true,
            Disposition::Retryable => false,
        }
    }
}

/// The shell's codes for a command that cannot be executed (126) or is not
/// found (127) cannot fix themselves; any other code, and a code that is not
/// known, is worth a retry.
pub open spec fn exit_disposition(exit_code: Option<i64>) -> Disposition {
    if exit_code == Some(126i64) || exit_code == Some(127i64) {
        Disposition::Terminal(DeploymentStatus::CreateContainerError)
    } else {
        Disposition::Retryable
    }
}

/// What an exit code means for the deployment.
pub fn classify_exit_code(exit_code: Option<i64>) -> (r: Disposition)
    ensures
        r == exit_disposition(exit_code),
{
    match exit_code {
        Some(code) => if code == 126 || code == 127 {
            Disposition::Terminal(DeploymentStatus::CreateContainerError)
        } else {
            Disposition::Retryable
        },
        None => Disposition::Retryable,
    }
}

/// A create error is terminal where the image does not exist, the config is
/// missing, the instance is refused, or the host cannot hold it.
pub open spec fn create_disposition(e: RuntimeErrorView) -> Disposition {
    match e {
        RuntimeErrorView::ImageNotFound(_) => Disposition::Terminal(
            DeploymentStatus::ImagePullBackOff,
        ),
        RuntimeErrorView::ConfigNotFound(_) | RuntimeErrorView::ConfigKeyNotFound(
            _,
        ) => Disposition::Terminal(DeploymentStatus::ConfigError),
        RuntimeErrorView::InstanceCreationFailed(_) => Disposition::Terminal(
            DeploymentStatus::CreateContainerError,
        ),
        RuntimeErrorView::FirmwareNotFound(_) => Disposition::Terminal(DeploymentStatus::Failed),
        RuntimeErrorView::InsufficientResources(_) => Disposition::Terminal(
            DeploymentStatus::InsufficientResources,
        ),
        _ => Disposition::Retryable,
    }
}

/// What a create error means for the deployment.
pub fn classify_create_error(e: &RuntimeError) -> (r: Disposition)
    ensures
        r == create_disposition(e@),
{
    match e {
        RuntimeError::ImageNotFound(_) => Disposition::Terminal(DeploymentStatus::ImagePullBackOff),
        RuntimeError::ConfigNotFound(_) | RuntimeError::ConfigKeyNotFound(
            _,
        ) => Disposition::Terminal(DeploymentStatus::ConfigError),
        RuntimeError::InstanceCreationFailed(_) => Disposition::Terminal(
            DeploymentStatus::CreateContainerError,
        ),
        RuntimeError::FirmwareNotFound(_) => Disposition::Terminal(DeploymentStatus::Failed),
        RuntimeError::InsufficientResources(_) => Disposition::Terminal(
            DeploymentStatus::InsufficientResources,
        ),
        _ => Disposition::Retryable,
    }
}

/// The status that a VM start failure ends in, where it is permanent, and the
/// reason that is reported with it.
pub open spec fn vm_start_verdict(e: RuntimeErrorView) -> (Option<DeploymentStatus>, Seq<char>) {
    match e {
        RuntimeErrorView::FirmwareNotFound(_) => (
            Some(DeploymentStatus::Failed),
            "FirmwareNotFound"@,
        ),
        RuntimeErrorView::ImageNotFound(_) => (
            Some(DeploymentStatus::ImagePullBackOff),
            "ImageNotFound"@,
        ),
        RuntimeErrorView::PortAlreadyInUse(_) => (None, "PortAllocationFailed"@),
        RuntimeErrorView::InsufficientResources(_) => (
            Some(DeploymentStatus::InsufficientResources),
            "insufficient_resources"@,
        ),
        _ => (None, "VmStartFailed"@),
    }
}

/// Classify a VM start failure: a terminal status where it is permanent,
/// `None` where a retry may help; and the reason to report.
pub fn classify_vm_start_error(e: &RuntimeError) -> (r: (Option<DeploymentStatus>, &'static str))
    ensures
        (r.0, r.1@) == vm_start_verdict(e@),
{
    match e {
        RuntimeError::FirmwareNotFound(_) => (Some(DeploymentStatus::Failed), "FirmwareNotFound"),
        RuntimeError::ImageNotFound(_) => {
            (Some(DeploymentStatus::ImagePullBackOff), "ImageNotFound")
        },
        RuntimeError::PortAlreadyInUse(_) => (None, "PortAllocationFailed"),
        RuntimeError::InsufficientResources(_) => (
            Some(DeploymentStatus::InsufficientResources),
            "insufficient_resources",
        ),
        _ => (None, "VmStartFailed"),
    }
}

/// The restart count after a VM failed to start.
pub open spec fn restarts_after_vm_failure(restarts: int, e: RuntimeErrorView) -> int {
    if vm_start_verdict(e).0 is Some {
        restarts
    } else {
        restarts + 1
    }
}

/// The status after a VM failed to start: the terminal one where the failure is
/// permanent, `exhausted` where the restart budget is spent, otherwise the old
/// one.
pub open spec fn status_after_vm_failure(
    status: DeploymentStatus,
    restarts: int,
    e: RuntimeErrorView,
    exhausted: DeploymentStatus,
) -> DeploymentStatus {
    match vm_start_verdict(e).0 {
        Some(terminal) => terminal,
        None => if restarts + 1 >= MAX_RESTART_COUNT {
            exhausted
        } else {
            status
        },
    }
}

/// Record a failed VM start: report it, and end in the terminal status or
/// count it against the restart budget.
pub fn apply_vm_start_failure(
    deployment: &mut Deployment,
    e: &RuntimeError,
    component: &str,
    exhausted: DeploymentStatus,
)
    requires
        vm_start_verdict(e@).0 is None ==> old(deployment).restart_count < u32::MAX,
    ensures
        final(deployment).log() == old(deployment).log().push(
            event("error"@, error_text(e@), component@, vm_start_verdict(e@).1),
        ),
        final(deployment).restart_count == restarts_after_vm_failure(
            old(deployment).restart_count as int,
            e@,
        ),
        final(deployment).status == status_after_vm_failure(
            old(deployment).status,
            old(deployment).restart_count as int,
            e@,
            exhausted,
        ),
        *final(deployment) == (Deployment {
            status: final(deployment).status,
            restart_count: final(deployment).restart_count,
            pending_events: final(deployment).pending_events,
            ..*old(deployment)
        }),
{
    let (status, reason) = classify_vm_start_error(e);
    deployment.emit_event("error", e.message(), component, reason);
    match status {
        Some(terminal) => {
            deployment.status = terminal;
        },
        None => {
            deployment.restart_count = deployment.restart_count + 1;
            if deployment.restart_count >= MAX_RESTART_COUNT {
                deployment.status = exhausted;
            }
        },
    }
}

/// A VM that keeps failing to start ends after at most as many failures as the
/// restart budget has left: each failure is terminal or uses up one restart,
/// and the one that spends the budget sets the exhausted status.
pub proof fn law_vm_failures_converge(
    status: DeploymentStatus,
    restarts: int,
    e: RuntimeErrorView,
    exhausted: DeploymentStatus,
)
    requires
        0 <= restarts,
    ensures
        ({
            let after = restarts_after_vm_failure(restarts, e);
            let next = status_after_vm_failure(status, restarts, e, exhausted);
            &&& vm_start_verdict(e).0 is Some || after == restarts + 1
            &&& after >= MAX_RESTART_COUNT && vm_start_verdict(e).0 is None ==> next == exhausted
            &&& after < MAX_RESTART_COUNT && vm_start_verdict(e).0 is None ==> next == status
        }),
{
}

/// Only the two codes of a command that cannot be run end a deployment at once,
/// both in the same status; every other code, zero among them, is retried.
pub proof fn law_only_unrunnable_commands_fail_fast(code: Option<i64>, r: Disposition)
    requires
        call_ensures(classify_exit_code, (code,), r),
    ensures
        r is Terminal <==> (code matches Some(n) && 126 <= n <= 127),
        r is Terminal ==> r == Disposition::Terminal(DeploymentStatus::CreateContainerError),
{
}

/// A failed creation is retried exactly where the registry, the network, the
/// host's files or something unnamed failed; what the deployment itself asks
/// for wrongly, and what the host cannot hold, ends it in the status that says
/// which it was.
pub proof fn law_create_error_is_retried_or_named(e: &RuntimeError, r: Disposition)
    requires
        call_ensures(classify_create_error, (e,), r),
    ensures
        r is Retryable <==> (*e is ImagePullFailed || *e is NetworkCreationFailed
            || *e is StatsFetchFailed || *e is VmStartFailed || *e is PortAlreadyInUse
            || *e is Other || *e is Io || *e is Json),
        r == Disposition::Terminal(DeploymentStatus::ImagePullBackOff) <==> *e is ImageNotFound,
        r == Disposition::Terminal(DeploymentStatus::ConfigError) <==> (*e is ConfigNotFound
            || *e is ConfigKeyNotFound),
        r == Disposition::Terminal(DeploymentStatus::CreateContainerError)
            <==> *e is InstanceCreationFailed,
        r == Disposition::Terminal(DeploymentStatus::Failed) <==> *e is FirmwareNotFound,
        r == Disposition::Terminal(DeploymentStatus::InsufficientResources)
            <==> *e is InsufficientResources,
{
}

/// A failed VM start is permanent exactly where the firmware or the image is
/// missing or the host cannot hold the VM, and then it ends in the status that
/// a failed creation for the same reason ends in.
pub proof fn law_vm_start_error_is_classified_alike(
    e: &RuntimeError,
    created: Disposition,
    r: (Option<DeploymentStatus>, &'static str),
)
    requires
        call_ensures(classify_create_error, (e,), created),
        call_ensures(classify_vm_start_error, (e,), r),
    ensures
        r.0 is Some <==> (*e is FirmwareNotFound || *e is ImageNotFound
            || *e is InsufficientResources),
        r.0 matches Some(status) ==> created == Disposition::Terminal(status),
        *e is PortAlreadyInUse <==> r.1@ == "PortAllocationFailed"@,
        *e is FirmwareNotFound <==> r.1@ == "FirmwareNotFound"@,
        *e is ImageNotFound <==> r.1@ == "ImageNotFound"@,
        *e is InsufficientResources <==> r.1@ == "insufficient_resources"@,
        r.1@ == "VmStartFailed"@ <==> (r.0 is None && !(*e is PortAlreadyInUse)),
{
    reveal_strlit("PortAllocationFailed");
    reveal_strlit("FirmwareNotFound");
    reveal_strlit("ImageNotFound");
    reveal_strlit("insufficient_resources");
    reveal_strlit("VmStartFailed");
    assert("PortAllocationFailed"@[0] == 'P');
    assert("FirmwareNotFound"@[0] == 'F');
    assert("ImageNotFound"@[0] == 'I');
    assert("insufficient_resources"@[0] == 'i');
    assert("VmStartFailed"@[0] == 'V');
}

/// A recorded VM failure adds one report, and either ends the deployment for
/// good without a restart being counted, or counts exactly one and ends in the
/// given status exactly where the count has reached the bound.
pub proof fn law_vm_failure_is_recorded_once(
    deployment: &mut Deployment,
    e: &RuntimeError,
    component: &str,
    exhausted: DeploymentStatus,
)
    requires
        call_ensures(apply_vm_start_failure, (deployment, e, component, exhausted), ()),
    ensures
        ({
            let permanent = *e is FirmwareNotFound || *e is ImageNotFound
                || *e is InsufficientResources;
            &&& permanent ==> final(deployment).restart_count == old(deployment).restart_count
            &&& !permanent ==> final(deployment).restart_count == old(deployment).restart_count + 1
            &&& *e is FirmwareNotFound ==> final(deployment).status == DeploymentStatus::Failed
            &&& *e is ImageNotFound ==> final(deployment).status
                == DeploymentStatus::ImagePullBackOff
            &&& *e is InsufficientResources ==> final(deployment).status
                == DeploymentStatus::InsufficientResources
            &&& !permanent && old(deployment).restart_count < 4 ==> final(deployment).status == old(
                deployment,
            ).status
            &&& !permanent && old(deployment).restart_count >= 4 ==> final(deployment).status
                == exhausted
        }),
        final(deployment).log().len() == old(deployment).log().len() + 1,
        final(deployment).log().drop_last() == old(deployment).log(),
        final(deployment).log().last().level == "error"@,
        final(deployment).log().last().component == component@,
        final(deployment).instances@ == old(deployment).instances@,
{
    assert(final(deployment).log().drop_last() =~= old(deployment).log());
}

} // verus!
