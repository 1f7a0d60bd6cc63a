//! The control interface of Cloud Hypervisor: every instance has a VMM process
//! of its own, with a socket of its own.
use vstd::prelude::*;
use crate::api_client::{ApiRequest, Method, RequestView, make_request};

verus! {

/// Client of one VMM process.
#[derive(Debug)]
pub struct CloudHypervisorClient {
    pub socket_path: String,
}

/// What a VM is created with.
#[derive(Debug)]
pub struct VmConfig {
    pub payload: PayloadConfig,
    pub cpus: Option<CpuConfig>,
    pub memory: Option<MemoryConfig>,
    pub disks: Option<Vec<DiskConfig>>,
    pub fs: Option<Vec<FsConfig>>,
    pub net: Option<Vec<NetConfig>>,
    pub serial: Option<ConsoleConfig>,
    pub console: Option<ConsoleConfig>,
    pub vsock: Option<VsockConfig>,
}

/// What a VM boots.
#[derive(Debug)]
pub struct PayloadConfig {
    pub kernel: Option<String>,
    pub cmdline: Option<String>,
    pub firmware: Option<String>,
    pub initramfs: Option<String>,
}

/// The CPUs of a VM.
#[derive(Clone, Copy, Debug, PartialEq, Eq, Structural)]
pub struct CpuConfig {
    pub boot_vcpus: u32,
    pub max_vcpus: u32,
}

/// The memory of a VM, in bytes.
#[derive(Clone, Copy, Debug, PartialEq, Eq, Structural)]
pub struct MemoryConfig {
    pub size: u64,
    /// Whether other processes can map it, as shared directories need.
    pub shared: bool,
}

/// A disk of a VM.
#[derive(Debug)]
pub struct DiskConfig {
    pub path: String,
    pub readonly: Option<bool>,
}

/// A shared directory of a VM.
#[derive(Debug)]
pub struct FsConfig {
    pub tag: String,
    pub socket: String,
    pub num_queues: u32,
    pub queue_size: u32,
}

/// A network device of a VM.
#[derive(Debug)]
pub struct NetConfig {
    pub tap: Option<String>,
    pub ip: Option<String>,
    pub mask: Option<String>,
    pub mac: Option<String>,
}

/// A console of a VM.
#[derive(Debug)]
pub struct ConsoleConfig {
    pub mode: String,
    pub file: Option<String>,
}

/// The socket device of a VM.
#[derive(Debug)]
pub struct VsockConfig {
    pub cid: u32,
    pub socket: String,
}

/// What a VMM says about its VM.
#[derive(Debug)]
pub struct VmInfo {
    pub state: String,
}

/// A request to the VMM behind `socket`.
pub open spec fn vm_request(
    socket: Seq<char>,
    method: Method,
    endpoint: Seq<char>,
    body: Option<Seq<char>>,
) -> RequestView {
    RequestView { socket, method, endpoint, body }
}

impl CloudHypervisorClient {
    /// The client of the VMM that listens on this socket.
    pub fn new(socket_path: &str) -> (r: Self)
        ensures
            r.socket_path@ == socket_path@,
    {
        CloudHypervisorClient { socket_path: socket_path.to_owned() }
    }

    /// The request that creates a VM. `config` is the JSON text of a
    /// [`VmConfig`].
    pub fn create_vm(&self, config: String) -> (r: ApiRequest)
        ensures
            r@ == vm_request(
                self.socket_path@,
                Method::Put,
                "/api/v1/vm.create"@,
                Some(config@),
            ),
    {
        make_request(self.socket_path.as_str(), Method::Put, "/api/v1/vm.create", Some(config))
    }

    /// The request that boots a VM that was created.
    pub fn boot_vm(&self) -> (r: ApiRequest)
        ensures
            r@ == vm_request(self.socket_path@, Method::Put, "/api/v1/vm.boot"@, None),
    {
        make_request(self.socket_path.as_str(), Method::Put, "/api/v1/vm.boot", None)
    }

    /// The request that shuts a running VM down.
    pub fn shutdown_vm(&self) -> (r: ApiRequest)
        ensures
            r@ == vm_request(self.socket_path@, Method::Put, "/api/v1/vm.shutdown"@, None),
    {
        make_request(self.socket_path.as_str(), Method::Put, "/api/v1/vm.shutdown", None)
    }

    /// The request that deletes a VM.
    pub fn delete_vm(&self) -> (r: ApiRequest)
        ensures
            r@ == vm_request(self.socket_path@, Method::Put, "/api/v1/vm.delete"@, None),
    {
        make_request(self.socket_path.as_str(), Method::Put, "/api/v1/vm.delete", None)
    }

    /// The request that asks for the state of a VM.
    pub fn info(&self) -> (r: ApiRequest)
        ensures
            r@ == vm_request(self.socket_path@, Method::Get, "/api/v1/vm.info"@, None),
    {
        make_request(self.socket_path.as_str(), Method::Get, "/api/v1/vm.info", None)
    }

    /// The request that asks whether the VMM is alive.
    pub fn ping(&self) -> (r: ApiRequest)
        ensures
            r@ == vm_request(self.socket_path@, Method::Put, "/api/v1/vmm.ping"@, None),
    {
        make_request(self.socket_path.as_str(), Method::Put, "/api/v1/vmm.ping", None)
    }
}

/// Every request goes to the client's own socket and names what it asks for; only
/// the one that asks for the state reads, and only the one that creates a VM has
/// something to say, which it says as it is handed in.
pub proof fn law_requests_go_to_the_own_vmm(
    c: &CloudHypervisorClient,
    config: String,
    create: ApiRequest,
    boot: ApiRequest,
    shutdown: ApiRequest,
    delete: ApiRequest,
    info: ApiRequest,
    ping: ApiRequest,
)
    requires
        call_ensures(CloudHypervisorClient::create_vm, (c, config), create),
        call_ensures(CloudHypervisorClient::boot_vm, (c,), boot),
        call_ensures(CloudHypervisorClient::shutdown_vm, (c,), shutdown),
        call_ensures(CloudHypervisorClient::delete_vm, (c,), delete),
        call_ensures(CloudHypervisorClient::info, (c,), info),
        call_ensures(CloudHypervisorClient::ping, (c,), ping),
    ensures
        create@.socket == c.socket_path@ && boot@.socket == c.socket_path@ && shutdown@.socket
            == c.socket_path@ && delete@.socket == c.socket_path@ && info@.socket == c.socket_path@
            && ping@.socket == c.socket_path@,
        create@.endpoint == "/api/v1/vm.create"@,
        boot@.endpoint == "/api/v1/vm.boot"@,
        shutdown@.endpoint == "/api/v1/vm.shutdown"@,
        delete@.endpoint == "/api/v1/vm.delete"@,
        info@.endpoint == "/api/v1/vm.info"@,
        ping@.endpoint == "/api/v1/vmm.ping"@,
        info@.method == Method::Get,
        create@.method == Method::Put && boot@.method == Method::Put && shutdown@.method
            == Method::Put && delete@.method == Method::Put && ping@.method == Method::Put,
        create@.body == Some(config@),
        boot@.body is None && shutdown@.body is None && delete@.body is None && info@.body is None
            && ping@.body is None,
{
}

} // verus!
