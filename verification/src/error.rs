//! The errors that the runtimes report.
use vstd::prelude::*;
use crate::text::{cat2, decimal, decimal_u64};

verus! {

/// Why a runtime operation failed.
#[derive(Debug, PartialEq, Eq)]
pub enum RuntimeError {
    ImageNotFound(String),
    ImagePullFailed(String),
    InstanceCreationFailed(String),
    ConfigNotFound(String),
    ConfigKeyNotFound(String),
    NetworkCreationFailed(String),
    StatsFetchFailed(String),
    /// Permanent: the firmware or kernel file is not at the configured path.
    /// Retrying does not help, the operator has to fix the path.
    FirmwareNotFound(String),
    /// Transient: the VM process failed to start or boot.
    VmStartFailed(String),
    /// The host cannot hold the memory that the deployment asks for.
    InsufficientResources(String),
    /// A published port is taken on the host.
    PortAlreadyInUse(u16),
    Other(String),
    /// An I/O error, by its text.
    Io(String),
    /// A JSON error, by its text.
    Json(String),
}

/// A [`RuntimeError`] by its contents.
pub enum RuntimeErrorView {
    ImageNotFound(Seq<char>),
    ImagePullFailed(Seq<char>),
    InstanceCreationFailed(Seq<char>),
    ConfigNotFound(Seq<char>),
    ConfigKeyNotFound(Seq<char>),
    NetworkCreationFailed(Seq<char>),
    StatsFetchFailed(Seq<char>),
    FirmwareNotFound(Seq<char>),
    VmStartFailed(Seq<char>),
    InsufficientResources(Seq<char>),
    PortAlreadyInUse(u16),
    Other(Seq<char>),
    Io(Seq<char>),
    Json(Seq<char>),
}

impl View for RuntimeError {
    type V = RuntimeErrorView;

    open spec fn view(&self) -> RuntimeErrorView {
        match *self {
            RuntimeError::ImageNotFound(s) => RuntimeErrorView::ImageNotFound(s@),
            RuntimeError::ImagePullFailed(s) => RuntimeErrorView::ImagePullFailed(s@),
            RuntimeError::InstanceCreationFailed(s) => RuntimeErrorView::InstanceCreationFailed(s@),
            RuntimeError::ConfigNotFound(s) => RuntimeErrorView::ConfigNotFound(s@),
            RuntimeError::ConfigKeyNotFound(s) => RuntimeErrorView::ConfigKeyNotFound(s@),
            RuntimeError::NetworkCreationFailed(s) => RuntimeErrorView::NetworkCreationFailed(s@),
            RuntimeError::StatsFetchFailed(s) => RuntimeErrorView::StatsFetchFailed(s@),
            RuntimeError::FirmwareNotFound(s) => RuntimeErrorView::FirmwareNotFound(s@),
            RuntimeError::VmStartFailed(s) => RuntimeErrorView::VmStartFailed(s@),
            RuntimeError::InsufficientResources(s) => RuntimeErrorView::InsufficientResources(s@),
            RuntimeError::PortAlreadyInUse(p) => RuntimeErrorView::PortAlreadyInUse(p),
            RuntimeError::Other(s) => RuntimeErrorView::Other(s@),
            RuntimeError::Io(s) => RuntimeErrorView::Io(s@),
            RuntimeError::Json(s) => RuntimeErrorView::Json(s@),
        }
    }
}

/// The text of an error, as an operator reads it.
pub open spec fn error_text(e: RuntimeErrorView) -> Seq<char> {
    match e {
        RuntimeErrorView::ImageNotFound(s) => "image not found: "@ + s,
        RuntimeErrorView::ImagePullFailed(s) => "image pull failed: "@ + s,
        RuntimeErrorView::InstanceCreationFailed(s) => "instance creation failed: "@ + s,
        RuntimeErrorView::ConfigNotFound(s) => "config not found: "@ + s,
        RuntimeErrorView::ConfigKeyNotFound(s) => "config key not found: "@ + s,
        RuntimeErrorView::NetworkCreationFailed(s) => "network creation failed: "@ + s,
        RuntimeErrorView::StatsFetchFailed(s) => "stats fetch failed: "@ + s,
        RuntimeErrorView::FirmwareNotFound(s) => "firmware not found: "@ + s,
        RuntimeErrorView::VmStartFailed(s) => "VM start failed: "@ + s,
        RuntimeErrorView::InsufficientResources(s) => "insufficient resources: "@ + s,
        RuntimeErrorView::PortAlreadyInUse(p) => "port already in use: "@ + decimal(p as nat),
        RuntimeErrorView::Other(s) => "runtime error: "@ + s,
        RuntimeErrorView::Io(s) => s,
        RuntimeErrorView::Json(s) => s,
    }
}

impl RuntimeError {
    /// The text of the error.
    pub fn message(&self) -> (r: String)
        ensures
            r@ == error_text(self@),
    {
        match self {
            RuntimeError::ImageNotFound(s) => cat2("image not found: ", s.as_str()),
            RuntimeError::ImagePullFailed(s) => cat2("image pull failed: ", s.as_str()),
            RuntimeError::InstanceCreationFailed(s) => {
                cat2("instance creation failed: ", s.as_str())
            },
            RuntimeError::ConfigNotFound(s) => cat2("config not found: ", s.as_str()),
            RuntimeError::ConfigKeyNotFound(s) => cat2("config key not found: ", s.as_str()),
            RuntimeError::NetworkCreationFailed(s) => cat2("network creation failed: ", s.as_str()),
            RuntimeError::StatsFetchFailed(s) => cat2("stats fetch failed: ", s.as_str()),
            RuntimeError::FirmwareNotFound(s) => cat2("firmware not found: ", s.as_str()),
            RuntimeError::VmStartFailed(s) => cat2("VM start failed: ", s.as_str()),
            RuntimeError::InsufficientResources(s) => cat2("insufficient resources: ", s.as_str()),
            RuntimeError::PortAlreadyInUse(p) => {
                cat2("port already in use: ", decimal_u64(*p as u64).as_str())
            },
            RuntimeError::Other(s) => cat2("runtime error: ", s.as_str()),
            RuntimeError::Io(s) => s.clone(),
            RuntimeError::Json(s) => s.clone(),
        }
    }
}

/// What an operator reads ends with the text of the error, behind what kind it is;
/// the texts of other programs stand alone.
pub proof fn law_error_keeps_its_text(e: &RuntimeError, r: String)
    requires
        call_ensures(RuntimeError::message, (e,), r),
    ensures
        *e matches RuntimeError::ImageNotFound(s) ==> r@ == "image not found: "@ + s@,
        *e matches RuntimeError::ImagePullFailed(s) ==> r@ == "image pull failed: "@ + s@,
        *e matches RuntimeError::InstanceCreationFailed(s) ==> r@ == "instance creation failed: "@
            + s@,
        *e matches RuntimeError::ConfigNotFound(s) ==> r@ == "config not found: "@ + s@,
        *e matches RuntimeError::ConfigKeyNotFound(s) ==> r@ == "config key not found: "@ + s@,
        *e matches RuntimeError::NetworkCreationFailed(s) ==> r@ == "network creation failed: "@
            + s@,
        *e matches RuntimeError::StatsFetchFailed(s) ==> r@ == "stats fetch failed: "@ + s@,
        *e matches RuntimeError::FirmwareNotFound(s) ==> r@ == "firmware not found: "@ + s@,
        *e matches RuntimeError::VmStartFailed(s) ==> r@ == "VM start failed: "@ + s@,
        *e matches RuntimeError::InsufficientResources(s) ==> r@ == "insufficient resources: "@
            + s@,
        *e matches RuntimeError::PortAlreadyInUse(p) ==> r@ == "port already in use: "@ + decimal(
            p as nat,
        ),
        *e matches RuntimeError::Other(s) ==> r@ == "runtime error: "@ + s@,
        *e matches RuntimeError::Io(s) ==> r@ == s@,
        *e matches RuntimeError::Json(s) ==> r@ == s@,
{
}

} // verus!
