//! The control interface of Firecracker. A machine is configured by a sequence
//! of small requests, and the last one boots it.
use vstd::prelude::*;
use crate::api_client::{ApiRequest, Method, RequestView, make_request};
use crate::text::cat2;

verus! {

/// The kernel and its command line.
#[derive(Debug)]
pub struct BootSource {
    pub kernel_image_path: String,
    pub boot_args: Option<String>,
    pub initrd_path: Option<String>,
}

/// A block device. The devices are attached in the order of the requests.
#[derive(Debug)]
pub struct Drive {
    pub drive_id: String,
    pub path_on_host: String,
    pub is_root_device: bool,
    pub is_read_only: bool,
}

/// CPUs and memory.
#[derive(Clone, Copy, Debug, PartialEq, Eq, Structural)]
pub struct MachineConfig {
    pub vcpu_count: u32,
    pub mem_size_mib: u32,
}

/// A network interface behind a tap of the host.
#[derive(Debug)]
pub struct NetworkInterface {
    pub iface_id: String,
    pub host_dev_name: String,
    pub guest_mac: Option<String>,
}

/// The socket device.
#[derive(Debug)]
pub struct Vsock {
    pub vsock_id: String,
    pub guest_cid: u32,
    pub uds_path: String,
}

/// Something that a machine is asked to do.
#[derive(Debug)]
pub struct Action {
    pub action_type: String,
}

/// What the VMM says about its machine.
#[derive(Debug)]
pub struct InstanceInfo {
    pub state: String,
    pub id: Option<String>,
}

/// Client of one VMM process.
#[derive(Debug)]
pub struct FirecrackerClient {
    pub socket_path: String,
}

/// A request that puts a resource.
pub open spec fn put_request(
    socket: Seq<char>,
    endpoint: Seq<char>,
    body: Seq<char>,
) -> RequestView {
    RequestView { socket, method: Method::Put, endpoint, body: Some(body) }
}

impl FirecrackerClient {
    /// The client of the VMM that listens on this socket.
    pub fn new(socket_path: &str) -> (r: Self)
        ensures
            r.socket_path@ == socket_path@,
    {
        FirecrackerClient { socket_path: socket_path.to_owned() }
    }

    /// The request that puts a resource.
    fn put(&self, endpoint: &str, body: String) -> (r: ApiRequest)
        ensures
            r@ == put_request(self.socket_path@, endpoint@, body@),
    {
        make_request(self.socket_path.as_str(), Method::Put, endpoint, Some(body))
    }

    /// The request that sets the kernel. `body` is the JSON text of a
    /// [`BootSource`].
    pub fn put_boot_source(&self, body: String) -> (r: ApiRequest)
        ensures
            r@ == put_request(self.socket_path@, "/boot-source"@, body@),
    {
        self.put("/boot-source", body)
    }

    /// The request that attaches a block device. `body` is its JSON text.
    pub fn put_drive(&self, drive: &Drive, body: String) -> (r: ApiRequest)
        ensures
            r@ == put_request(self.socket_path@, "/drives/"@ + drive.drive_id@, body@),
    {
        let endpoint = cat2("/drives/", drive.drive_id.as_str());
        self.put(endpoint.as_str(), body)
    }

    /// The request that sets CPUs and memory. `body` is the JSON text of a
    /// [`MachineConfig`].
    pub fn put_machine_config(&self, body: String) -> (r: ApiRequest)
        ensures
            r@ == put_request(self.socket_path@, "/machine-config"@, body@),
    {
        self.put("/machine-config", body)
    }

    /// The request that attaches a network interface. `body` is its JSON text.
    pub fn put_network_interface(&self, iface: &NetworkInterface, body: String) -> (r: ApiRequest)
        ensures
            r@ == put_request(
                self.socket_path@,
                "/network-interfaces/"@ + iface.iface_id@,
                body@,
            ),
    {
        let endpoint = cat2("/network-interfaces/", iface.iface_id.as_str());
        self.put(endpoint.as_str(), body)
    }

    /// The request that attaches the socket device. `body` is the JSON text of
    /// a [`Vsock`].
    pub fn put_vsock(&self, body: String) -> (r: ApiRequest)
        ensures
            r@ == put_request(self.socket_path@, "/vsock"@, body@),
    {
        self.put("/vsock", body)
    }

    /// The request that asks a machine to do something. `body` is the JSON text
    /// of an [`Action`].
    pub fn action(&self, body: String) -> (r: ApiRequest)
        ensures
            r@ == put_request(self.socket_path@, "/actions"@, body@),
    {
        self.put("/actions", body)
    }

    /// What a machine is asked to do to boot.
    pub fn start() -> (r: Action)
        ensures
            r.action_type@ == "InstanceStart"@,
    {
        Action { action_type: "InstanceStart".to_owned() }
    }

    /// What a machine is asked to do to shut down in order.
    pub fn send_ctrl_alt_del() -> (r: Action)
        ensures
            r.action_type@ == "SendCtrlAltDel"@,
    {
        Action { action_type: "SendCtrlAltDel".to_owned() }
    }

    /// The request that asks for the state of a machine.
    pub fn info(&self) -> (r: ApiRequest)
        ensures
            r@ == (RequestView {
                socket: self.socket_path@,
                method: Method::Get,
                endpoint: "/"@,
                body: None,
            }),
    {
        make_request(self.socket_path.as_str(), Method::Get, "/", None)
    }
}

/// Every request goes to the client's own socket, names the resource that it puts
/// and carries the text that is handed in; a drive and an interface are put under
/// their own ids. Only the question for the state reads, and says nothing.
pub proof fn law_requests_name_their_resource(
    c: &FirecrackerClient,
    body: String,
    d: &Drive,
    i: &NetworkInterface,
    kernel: ApiRequest,
    drive: ApiRequest,
    machine: ApiRequest,
    iface: ApiRequest,
    vsock: ApiRequest,
    asked: ApiRequest,
    info: ApiRequest,
    start: Action,
    stop: Action,
)
    requires
        call_ensures(FirecrackerClient::put_boot_source, (c, body), kernel),
        call_ensures(FirecrackerClient::put_drive, (c, d, body), drive),
        call_ensures(FirecrackerClient::put_machine_config, (c, body), machine),
        call_ensures(FirecrackerClient::put_network_interface, (c, i, body), iface),
        call_ensures(FirecrackerClient::put_vsock, (c, body), vsock),
        call_ensures(FirecrackerClient::action, (c, body), asked),
        call_ensures(FirecrackerClient::info, (c,), info),
        call_ensures(FirecrackerClient::start, (), start),
        call_ensures(FirecrackerClient::send_ctrl_alt_del, (), stop),
    ensures
        kernel@.socket == c.socket_path@ && drive@.socket == c.socket_path@ && machine@.socket
            == c.socket_path@ && iface@.socket == c.socket_path@ && vsock@.socket == c.socket_path@
            && asked@.socket == c.socket_path@ && info@.socket == c.socket_path@,
        kernel@.endpoint == "/boot-source"@,
        drive@.endpoint == "/drives/"@ + d.drive_id@,
        machine@.endpoint == "/machine-config"@,
        iface@.endpoint == "/network-interfaces/"@ + i.iface_id@,
        vsock@.endpoint == "/vsock"@,
        asked@.endpoint == "/actions"@,
        kernel@.method == Method::Put && drive@.method == Method::Put && machine@.method
            == Method::Put && iface@.method == Method::Put && vsock@.method == Method::Put
            && asked@.method == Method::Put,
        kernel@.body == Some(body@) && drive@.body == Some(body@) && machine@.body == Some(body@)
            && iface@.body == Some(body@) && vsock@.body == Some(body@) && asked@.body == Some(
            body@,
        ),
        info@.method == Method::Get && info@.body is None && info@.endpoint == "/"@,
        start.action_type@ == "InstanceStart"@,
        stop.action_type@ == "SendCtrlAltDel"@,
{
}

} // verus!
