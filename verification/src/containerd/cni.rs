//! The network of containers: what the network plugins are told, and which
//! address they assigned.
use vstd::prelude::*;
use crate::paths::{join_path, joined_path};
use crate::text::{cat3, cat7, chars_of, contains, decimal, decimal_u64, find_from, first_pos, lemma_first_pos, occurs_at, str_pairs, string_of, strs};

verus! {

/// The directory of the network configurations.
pub const CNI_CONF_DIR: &'static str = "/etc/cni/net.d";

/// The network configuration that is written where none is there.
pub const CNI_CONF_FILE: &'static str = "/etc/cni/net.d/10-ring.conflist";

/// The directory of the network plugins.
pub const CNI_BIN_DIR: &'static str = "/opt/cni/bin";

/// The name of the network.
pub const CNI_NETWORK_NAME: &'static str = "ring";

/// The bridge of the network.
pub const CNI_BRIDGE: &'static str = "ring-cni0";

/// The addresses of the network.
pub const CNI_SUBNET: &'static str = "10.43.0.0/16";

/// The interface in a container.
pub const CNI_IFNAME: &'static str = "eth0";

/// How addresses are assigned: from the network's own range, with a route to
/// everywhere.
pub open spec fn ipam_text(subnet: Seq<char>) -> Seq<char> {
    "{\"ranges\":[[{\"subnet\":\""@ + subnet
        + "\"}]],\"routes\":[{\"dst\":\"0.0.0.0/0\"}],\"type\":\"host-local\"}"@
}

/// The configuration of the network: a bridge that assigns addresses and hides
/// them behind the host, and the loopback interface.
pub open spec fn conflist_text() -> Seq<char> {
    "{\"cniVersion\":\"1.0.0\",\"name\":\""@ + "ring"@ + "\",\"plugins\":[{\"bridge\":\""@
        + "ring-cni0"@ + "\",\"hairpinMode\":true,\"ipMasq\":true,\"ipam\":"@ + ipam_text(
        "10.43.0.0/16"@,
    ) + ",\"isGateway\":true,\"type\":\"bridge\"},{\"type\":\"loopback\"}]}"@
}

/// The configuration of the bridge alone, as its plugin reads it.
pub open spec fn bridge_text() -> Seq<char> {
    "{\"bridge\":\""@ + "ring-cni0"@
        + "\",\"cniVersion\":\"1.0.0\",\"hairpinMode\":true,\"ipMasq\":true,\"ipam\":"@ + ipam_text(
        "10.43.0.0/16"@,
    ) + ",\"isGateway\":true,\"name\":\""@ + "ring"@ + "\",\"type\":\"bridge\"}"@
}

/// How addresses are assigned.
fn ipam() -> (r: String)
    ensures
        r@ == ipam_text("10.43.0.0/16"@),
{
    cat3(
        "{\"ranges\":[[{\"subnet\":\"",
        CNI_SUBNET,
        "\"}]],\"routes\":[{\"dst\":\"0.0.0.0/0\"}],\"type\":\"host-local\"}",
    )
}

/// The configuration of the network, as JSON.
pub fn default_conflist() -> (r: String)
    ensures
        r@ == conflist_text(),
{
    let addresses = ipam();
    cat7(
        "{\"cniVersion\":\"1.0.0\",\"name\":\"",
        CNI_NETWORK_NAME,
        "\",\"plugins\":[{\"bridge\":\"",
        CNI_BRIDGE,
        "\",\"hairpinMode\":true,\"ipMasq\":true,\"ipam\":",
        addresses.as_str(),
        ",\"isGateway\":true,\"type\":\"bridge\"},{\"type\":\"loopback\"}]}",
    )
}

/// The configuration of the bridge alone, as JSON.
pub fn bridge_config() -> (r: String)
    ensures
        r@ == bridge_text(),
{
    let addresses = ipam();
    cat7(
        "{\"bridge\":\"",
        CNI_BRIDGE,
        "\",\"cniVersion\":\"1.0.0\",\"hairpinMode\":true,\"ipMasq\":true,\"ipam\":",
        addresses.as_str(),
        ",\"isGateway\":true,\"name\":\"",
        CNI_NETWORK_NAME,
        "\",\"type\":\"bridge\"}",
    )
}

/// The environment of a plugin that is run for a container.
pub fn plugin_environment(command: &str, container_id: &str, netns_path: &str) -> (r: Vec<
    (String, String),
>)
    ensures
        str_pairs(r@) == seq![
            ("CNI_COMMAND"@, command@),
            ("CNI_CONTAINERID"@, container_id@),
            ("CNI_NETNS"@, netns_path@),
            ("CNI_IFNAME"@, "eth0"@),
            ("CNI_PATH"@, "/opt/cni/bin"@),
        ],
{
    let mut out: Vec<(String, String)> = Vec::new();
    out.push(("CNI_COMMAND".to_owned(), command.to_owned()));
    out.push(("CNI_CONTAINERID".to_owned(), container_id.to_owned()));
    out.push(("CNI_NETNS".to_owned(), netns_path.to_owned()));
    out.push(("CNI_IFNAME".to_owned(), CNI_IFNAME.to_owned()));
    out.push(("CNI_PATH".to_owned(), CNI_BIN_DIR.to_owned()));
    assert(str_pairs(out@) =~= seq![
        ("CNI_COMMAND"@, command@),
        ("CNI_CONTAINERID"@, container_id@),
        ("CNI_NETNS"@, netns_path@),
        ("CNI_IFNAME"@, "eth0"@),
        ("CNI_PATH"@, "/opt/cni/bin"@),
    ]);
    out
}

/// The plugin of the bridge.
pub fn bridge_plugin() -> (r: String)
    ensures
        r@ == joined_path("/opt/cni/bin"@, "bridge"@),
{
    join_path(CNI_BIN_DIR, "bridge")
}

/// What stands before the first slash of an address with its prefix length.
pub open spec fn address_part(address: Seq<char>) -> Option<Seq<char>> {
    let slash = first_pos(address, '/');
    if slash < address.len() {
        Some(address.take(slash))
    } else {
        None
    }
}

/// The addresses among those that a plugin reports, without their prefix
/// lengths, in their order. The first one that is an IP address is the
/// container's.
pub open spec fn candidates(addresses: Seq<Seq<char>>) -> Seq<Seq<char>>
    decreases addresses.len(),
{
    if addresses.len() == 0 {
        seq![]
    } else {
        match address_part(addresses.last()) {
            Some(a) => candidates(addresses.drop_last()).push(a),
            None => candidates(addresses.drop_last()),
        }
    }
}

/// The addresses among those that a plugin reports, without their prefix
/// lengths. One without a prefix length is passed over.
pub fn candidate_addresses(addresses: &Vec<String>) -> (r: Vec<String>)
    ensures
        strs(r@) == candidates(strs(addresses@)),
{
    let mut out: Vec<String> = Vec::new();
    let ghost all = strs(addresses@);
    let mut i: usize = 0;
    assert(strs(out@) =~= candidates(all.take(0)));
    while i < addresses.len()
        invariant
            i <= addresses.len(),
            all == strs(addresses@),
            strs(out@) == candidates(all.take(i as int)),
        decreases addresses.len() - i,
    {
        assert(all.take(i + 1).drop_last() =~= all.take(i as int));
        assert(all.take(i + 1).last() == addresses@[i as int]@);
        let ghost before = out@;
        let text = chars_of(addresses[i].as_str());
        assert(text@.skip(0) =~= text@);
        let slash: usize = find_from(&text, '/', 0);
        if slash < text.len() {
            let part = string_of(&text, 0, slash);
            assert(part@ =~= addresses@[i as int]@.take(slash as int));
            out.push(part);
            assert(strs(out@) =~= strs(before).push(part@));
        }
        i += 1;
    }
    assert(all.take(all.len() as int) =~= all);
    out
}

/// The network namespace of a process.
pub fn netns_path(pid: u32) -> (r: String)
    ensures
        r@ == "/proc/"@ + decimal(pid as nat) + "/ns/net"@,
{
    let number = decimal_u64(pid as u64);
    cat3("/proc/", number.as_str(), "/ns/net")
}

/// The addresses that a plugin reports are taken without their prefix lengths,
/// in their order: one more address adds what stands before its first slash, or
/// nothing where it has none.
pub proof fn law_addresses_lose_their_prefix_length(
    addresses: &Vec<String>,
    more: &Vec<String>,
    last: String,
    before: Vec<String>,
    after: Vec<String>,
)
    requires
        more@ == addresses@.push(last),
        call_ensures(candidate_addresses, (addresses,), before),
        call_ensures(candidate_addresses, (more,), after),
    ensures
        addresses@.len() == 0 ==> before@.len() == 0,
        !last@.contains('/') ==> strs(after@) == strs(before@),
        last@.contains('/') ==> {
            &&& after@.len() == before@.len() + 1
            &&& strs(after@).drop_last() == strs(before@)
            &&& !after@.last()@.contains('/')
            &&& after@.last()@.push('/').is_prefix_of(last@)
        },
{
    assert(strs(more@).drop_last() =~= strs(addresses@));
    assert(strs(more@).last() == last@);
    assert(strs(before@).len() == before@.len());
    assert(strs(after@).len() == after@.len());
    lemma_first_pos(last@, '/');
    let p = first_pos(last@, '/');
    if last@.contains('/') {
        let k = choose|k: int| 0 <= k < last@.len() && last@[k] == '/';
        assert(p <= k);
        assert(strs(after@).last() == after@.last()@);
        assert(strs(after@).drop_last() =~= strs(before@));
        let part = last@.take(p);
        assert(last@.subrange(0, p + 1) =~= part.push('/'));
        if part.contains('/') {
            let j = choose|j: int| 0 <= j < part.len() && part[j] == '/';
            assert(last@[j] == '/');
        }
    } else if p < last@.len() {
        assert(last@.contains(last@[p]));
    }
}

/// A plugin is told which command, container and network namespace it is run
/// for, each under its own name.
pub proof fn law_plugin_is_told_its_container(
    command: &str,
    container_id: &str,
    netns_path: &str,
    r: Vec<(String, String)>,
)
    requires
        call_ensures(plugin_environment, (command, container_id, netns_path), r),
    ensures
        str_pairs(r@).contains(("CNI_COMMAND"@, command@)),
        str_pairs(r@).contains(("CNI_CONTAINERID"@, container_id@)),
        str_pairs(r@).contains(("CNI_NETNS"@, netns_path@)),
{
    assert(str_pairs(r@)[0] == ("CNI_COMMAND"@, command@));
    assert(str_pairs(r@)[1] == ("CNI_CONTAINERID"@, container_id@));
    assert(str_pairs(r@)[2] == ("CNI_NETNS"@, netns_path@));
}

/// The network of containers hides their addresses behind the host, lets them reach
/// themselves, and gives them the host as their gateway: so says what is written for
/// all of its parts, and so says what the bridge alone is told.
pub proof fn law_network_is_hidden_behind_the_host(all: String, bridge: String, plugin: String)
    requires
        call_ensures(default_conflist, (), all),
        call_ensures(bridge_config, (), bridge),
        call_ensures(bridge_plugin, (), plugin),
    ensures
        contains(all@, "\"hairpinMode\":true,\"ipMasq\":true"@),
        contains(bridge@, "\"hairpinMode\":true,\"ipMasq\":true"@),
        contains(all@, "\"isGateway\":true"@),
        contains(bridge@, "\"isGateway\":true"@),
        contains(all@, "10.43.0.0/16"@),
        contains(bridge@, "10.43.0.0/16"@),
        contains(all@, "ring-cni0"@),
        contains(bridge@, "ring-cni0"@),
        plugin@ == "/opt/cni/bin/bridge"@,
{
    let m1 = "\",\"hairpinMode\":true,\"ipMasq\":true,\"ipam\":"@;
    let m2 = "\",\"cniVersion\":\"1.0.0\",\"hairpinMode\":true,\"ipMasq\":true,\"ipam\":"@;
    let g1 = ",\"isGateway\":true,\"type\":\"bridge\"},{\"type\":\"loopback\"}]}"@;
    let g2 = ",\"isGateway\":true,\"name\":\""@;
    let pat = "\"hairpinMode\":true,\"ipMasq\":true"@;
    let gate = "\"isGateway\":true"@;
    let s1 = "{\"ranges\":[[{\"subnet\":\""@;
    reveal_strlit("\",\"hairpinMode\":true,\"ipMasq\":true,\"ipam\":");
    reveal_strlit("\",\"cniVersion\":\"1.0.0\",\"hairpinMode\":true,\"ipMasq\":true,\"ipam\":");
    reveal_strlit(",\"isGateway\":true,\"type\":\"bridge\"},{\"type\":\"loopback\"}]}");
    reveal_strlit(",\"isGateway\":true,\"name\":\"");
    reveal_strlit("\"hairpinMode\":true,\"ipMasq\":true");
    reveal_strlit("\"isGateway\":true");
    let k1 = ("{\"cniVersion\":\"1.0.0\",\"name\":\""@ + "ring"@
        + "\",\"plugins\":[{\"bridge\":\""@).len() as int;
    let k2 = "{\"bridge\":\""@.len() as int;
    let b = "ring-cni0"@.len() as int;
    let ip = ipam_text("10.43.0.0/16"@);
    lemma_inside(all@, "ring-cni0"@, k1);
    lemma_inside(bridge@, "ring-cni0"@, k2);
    assert(m1.subrange(2, 2 + pat.len() as int) =~= pat);
    assert(m2.subrange(23, 23 + pat.len() as int) =~= pat);
    assert(all@.subrange(k1 + b, k1 + b + m1.len()) =~= m1);
    assert(bridge@.subrange(k2 + b, k2 + b + m2.len()) =~= m2);
    lemma_inner(all@, m1, pat, k1 + b, 2);
    lemma_inner(bridge@, m2, pat, k2 + b, 23);
    let n = "10.43.0.0/16"@;
    let i1 = k1 + b + m1.len();
    let i2 = k2 + b + m2.len();
    assert(all@.subrange(i1, i1 + ip.len()) =~= ip);
    assert(bridge@.subrange(i2, i2 + ip.len()) =~= ip);
    assert(ip.subrange(s1.len() as int, s1.len() as int + n.len()) =~= n);
    lemma_inner(all@, ip, n, i1, s1.len() as int);
    lemma_inner(bridge@, ip, n, i2, s1.len() as int);
    assert(g1.subrange(1, 1 + gate.len() as int) =~= gate);
    assert(g2.subrange(1, 1 + gate.len() as int) =~= gate);
    assert(all@.subrange(i1 + ip.len(), i1 + ip.len() + g1.len()) =~= g1);
    assert(bridge@.subrange(i2 + ip.len(), i2 + ip.len() + g2.len()) =~= g2);
    lemma_inner(all@, g1, gate, i1 + ip.len(), 1);
    lemma_inner(bridge@, g2, gate, i2 + ip.len(), 1);
    reveal_strlit("/opt/cni/bin");
    reveal_strlit("bridge");
    reveal_strlit("/");
    reveal_strlit("/opt/cni/bin/bridge");
    assert("/opt/cni/bin"@ + "/"@ + "bridge"@ =~= "/opt/cni/bin/bridge"@);
}

/// What stands at a place is held.
proof fn lemma_inside(s: Seq<char>, pat: Seq<char>, k: int)
    requires
        0 <= k && k + pat.len() <= s.len(),
        s.subrange(k, k + pat.len()) =~= pat,
    ensures
        contains(s, pat),
{
    assert(occurs_at(s, pat, k));
}

/// What stands in a part is held by the whole.
proof fn lemma_inner(s: Seq<char>, part: Seq<char>, pat: Seq<char>, k: int, j: int)
    requires
        0 <= k && k + part.len() <= s.len(),
        s.subrange(k, k + part.len()) == part,
        0 <= j && j + pat.len() <= part.len(),
        part.subrange(j, j + pat.len()) == pat,
    ensures
        contains(s, pat),
{
    assert(s.subrange(k + j, k + j + pat.len()) =~= part.subrange(j, j + pat.len()));
    assert(occurs_at(s, pat, k + j));
}

} // verus!
