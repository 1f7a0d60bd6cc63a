//! Forwarding of host ports into a VM with `socat`.
use vstd::prelude::*;
use crate::error::{RuntimeError, RuntimeErrorView};
use crate::text::{cat3, cat4, cat6, contains, decimal, decimal_u64, occurs_at, opt_str, same, strs};

verus! {

/// The interface that is listened on where none is given: all of them.
pub const DEFAULT_HOST_IP: &'static str = "0.0.0.0";

/// How long a forwarder is given to listen, in milliseconds.
pub const FORWARDER_SETTLE_MILLIS: u64 = 100;

/// The interface that is listened on.
pub open spec fn bind_ip(host_ip: Option<Seq<char>>) -> Seq<char> {
    match host_ip {
        Some(ip) => ip,
        None => "0.0.0.0"@,
    }
}

/// The interface that is listened on.
pub fn listen_ip(host_ip: &Option<String>) -> (r: String)
    ensures
        r@ == bind_ip(opt_str(*host_ip)),
{
    match host_ip {
        Some(ip) => ip.clone(),
        None => DEFAULT_HOST_IP.to_owned(),
    }
}

/// What is listened on. The interface is named only where it is not all of
/// them.
pub open spec fn listen_text(ip: Seq<char>, published: u16) -> Seq<char> {
    let base = "TCP4-LISTEN:"@ + decimal(published as nat) + ",reuseaddr,fork"@;
    if ip == "0.0.0.0"@ {
        base
    } else {
        base + ",bind="@ + ip
    }
}

/// What a connection is forwarded to.
pub open spec fn connect_text(guest_ip: Seq<char>, target: u16) -> Seq<char> {
    "TCP4:"@ + guest_ip + ":"@ + decimal(target as nat)
}

/// The arguments of the process that forwards a port, or the error that it
/// cannot be started with. `available` says whether the host can listen there.
pub fn forwarder_args(
    guest_ip: &str,
    published_port: u16,
    target_port: u16,
    host_ip: &Option<String>,
    available: bool,
) -> (r: Result<Vec<String>, RuntimeError>)
    ensures
        match r {
            Ok(args) => available && strs(args@) == seq![
                "-d"@,
                "-d"@,
                listen_text(bind_ip(opt_str(*host_ip)), published_port),
                connect_text(guest_ip@, target_port),
            ],
            Err(e) => !available && e@ == RuntimeErrorView::PortAlreadyInUse(published_port),
        },
{
    if !available {
        return Err(RuntimeError::PortAlreadyInUse(published_port));
    }
    let ip = listen_ip(host_ip);
    let shown = decimal_u64(published_port as u64);
    let base = cat3("TCP4-LISTEN:", shown.as_str(), ",reuseaddr,fork");
    let listen = if same(ip.as_str(), DEFAULT_HOST_IP) {
        base
    } else {
        cat3(base.as_str(), ",bind=", ip.as_str())
    };
    let target = decimal_u64(target_port as u64);
    let connect = cat4("TCP4:", guest_ip, ":", target.as_str());
    let mut args: Vec<String> = Vec::new();
    args.push("-d".to_owned());
    args.push("-d".to_owned());
    args.push(listen);
    args.push(connect);
    assert(strs(args@) =~= seq![
        "-d"@,
        "-d"@,
        listen_text(bind_ip(opt_str(*host_ip)), published_port),
        connect_text(guest_ip@, target_port),
    ]);
    Ok(args)
}

/// The error for a forwarder that could not be started.
pub fn forwarder_error(guest_ip: &str, published_port: u16, target_port: u16, text: &str) -> (r:
    RuntimeError)
    ensures
        r@ == RuntimeErrorView::Other(
            "failed to spawn socat for "@ + decimal(published_port as nat) + "->"@ + guest_ip@
                + ":"@ + decimal(target_port as nat) + ": "@ + text@ + " (install socat?)"@,
        ),
{
    let from = decimal_u64(published_port as u64);
    let to = decimal_u64(target_port as u64);
    let head = cat6(
        "failed to spawn socat for ",
        from.as_str(),
        "->",
        guest_ip,
        ":",
        to.as_str(),
    );
    RuntimeError::Other(cat4(head.as_str(), ": ", text, " (install socat?)"))
}

/// A port is forwarded exactly where the host can listen on it, and a port that is
/// taken is named. What is listened on carries the published port and, where one
/// is given that does not mean all of them, the interface; what is connected to
/// carries the guest's address and the target port.
pub proof fn law_forwarder_joins_two_ports(
    guest_ip: &str,
    published: u16,
    target: u16,
    host_ip: &Option<String>,
    available: bool,
    r: Result<Vec<String>, RuntimeError>,
)
    requires
        call_ensures(forwarder_args, (guest_ip, published, target, host_ip, available), r),
    ensures
        r is Ok <==> available,
        r matches Err(e) ==> e@ == RuntimeErrorView::PortAlreadyInUse(published),
        r matches Ok(args) ==> {
            let listen = "TCP4-LISTEN:"@ + decimal(published as nat) + ",reuseaddr,fork"@;
            &&& args@.len() == 4
            &&& args@[3]@ == "TCP4:"@ + guest_ip@ + ":"@ + decimal(target as nat)
            &&& *host_ip is None ==> args@[2]@ == listen
            &&& *host_ip matches Some(ip) ==> (ip@ == "0.0.0.0"@ ==> args@[2]@ == listen)
            &&& *host_ip matches Some(ip) ==> (ip@ != "0.0.0.0"@ ==> args@[2]@ == listen
                + ",bind="@ + ip@)
        },
{
    if let Ok(args) = r {
        let all = strs(args@);
        assert(all.len() == args@.len());
        assert(all[2] == args@[2]@);
        assert(all[3] == args@[3]@);
    }
}

/// The error for a forwarder carries both ports, the guest's address and the text
/// of its cause.
pub proof fn law_forwarder_error_tells_the_route(
    guest_ip: &str,
    published: u16,
    target: u16,
    text: &str,
    r: RuntimeError,
)
    requires
        call_ensures(forwarder_error, (guest_ip, published, target, text), r),
    ensures
        r@ matches RuntimeErrorView::Other(t) && contains(
            t,
            decimal(published as nat) + "->"@ + guest_ip@ + ":"@ + decimal(target as nat),
        ) && contains(t, text@),
{
    let t = r@->Other_0;
    let head = "failed to spawn socat for "@;
    let route = decimal(published as nat) + "->"@ + guest_ip@ + ":"@ + decimal(target as nat);
    let k = head.len() as int;
    assert(t.subrange(k, k + route.len()) =~= route);
    assert(occurs_at(t, route, k));
    let m = k + route.len() + ": "@.len();
    assert(t.subrange(m, m + text@.len()) =~= text@);
    assert(occurs_at(t, text@, m));
}

} // verus!
