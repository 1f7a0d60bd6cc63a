//! Health checks of a container.
use vstd::prelude::*;
use crate::models::HealthCheckStatus;
use crate::text::{cat2, same, strs};

verus! {

/// A network of a container and its address in it.
#[derive(Debug)]
pub struct NetworkAddress {
    pub network: String,
    pub ip: Option<String>,
}

/// The address of a network, where it has one.
pub open spec fn usable_ip(n: NetworkAddress) -> Option<Seq<char>> {
    match n.ip {
        Some(ip) => if ip@.len() > 0 {
            Some(ip@)
        } else {
            None
        },
        None => None,
    }
}

/// The addresses in the default network.
pub open spec fn bridge_ips(networks: Seq<NetworkAddress>) -> Seq<Seq<char>>
    decreases networks.len(),
{
    if networks.len() == 0 {
        seq![]
    } else if networks.last().network@ == "bridge"@ && usable_ip(networks.last()) is Some {
        bridge_ips(networks.drop_last()).push(usable_ip(networks.last())->0)
    } else {
        bridge_ips(networks.drop_last())
    }
}

/// The addresses in all networks.
pub open spec fn all_ips(networks: Seq<NetworkAddress>) -> Seq<Seq<char>>
    decreases networks.len(),
{
    if networks.len() == 0 {
        seq![]
    } else if usable_ip(networks.last()) is Some {
        all_ips(networks.drop_last()).push(usable_ip(networks.last())->0)
    } else {
        all_ips(networks.drop_last())
    }
}

/// The addresses of a container in the order in which they are tried: that in
/// the default network first, then those in all networks. The first one that is
/// an IP address is the container's.
pub fn container_addresses(networks: &Vec<NetworkAddress>) -> (r: Vec<String>)
    ensures
        strs(r@) == bridge_ips(networks@) + all_ips(networks@),
{
    let mut first: Vec<String> = Vec::new();
    let mut rest: Vec<String> = Vec::new();
    let mut i: usize = 0;
    assert(strs(first@) =~= bridge_ips(networks@.take(0)));
    assert(strs(rest@) =~= all_ips(networks@.take(0)));
    while i < networks.len()
        invariant
            i <= networks.len(),
            strs(first@) == bridge_ips(networks@.take(i as int)),
            strs(rest@) == all_ips(networks@.take(i as int)),
        decreases networks.len() - i,
    {
        assert(networks@.take(i + 1).drop_last() =~= networks@.take(i as int));
        let ghost first_before = first@;
        let ghost rest_before = rest@;
        if let Some(ip) = &networks[i].ip {
            if !ip.as_str().is_empty() {
                if same(networks[i].network.as_str(), "bridge") {
                    first.push(ip.clone());
                    assert(strs(first@) =~= strs(first_before).push(ip@));
                }
                rest.push(ip.clone());
                assert(strs(rest@) =~= strs(rest_before).push(ip@));
            }
        }
        i += 1;
    }
    assert(networks@.take(networks.len() as int) =~= networks@);
    let ghost a = strs(first@);
    let ghost b = strs(rest@);
    first.append(&mut rest);
    assert(strs(first@) =~= a + b);
    first
}

/// What came of running a command in a container.
#[derive(Debug)]
pub enum CommandRun {
    CreateFailed(String),
    StartFailed(String),
    Started,
}

/// The result of a command check.
pub open spec fn command_run_answer(run: CommandRun) -> (HealthCheckStatus, Seq<char>) {
    match run {
        CommandRun::CreateFailed(e) => (
            HealthCheckStatus::Failed,
            "Failed to create exec: "@ + e@,
        ),
        CommandRun::StartFailed(e) => (
            HealthCheckStatus::Failed,
            "Failed to execute command: "@ + e@,
        ),
        CommandRun::Started => (HealthCheckStatus::Success, "Command executed successfully"@),
    }
}

/// The result of a command check: a success where the command could be started.
pub fn command_run_result(run: &CommandRun) -> (r: (HealthCheckStatus, String))
    ensures
        (r.0, r.1@) == command_run_answer(*run),
{
    match run {
        CommandRun::CreateFailed(e) => (
            HealthCheckStatus::Failed,
            cat2("Failed to create exec: ", e.as_str()),
        ),
        CommandRun::StartFailed(e) => (
            HealthCheckStatus::Failed,
            cat2("Failed to execute command: ", e.as_str()),
        ),
        CommandRun::Started => (
            HealthCheckStatus::Success,
            "Command executed successfully".to_owned(),
        ),
    }
}

/// The addresses that are tried are those that are not empty: first the ones in
/// the default network, then all of them, each in the order of the networks. One
/// more network adds its address at the end of both parts, or only of the
/// second one, or nothing.
pub proof fn law_default_network_is_tried_first(
    networks: &Vec<NetworkAddress>,
    more: &Vec<NetworkAddress>,
    last: NetworkAddress,
    before: Vec<String>,
    after: Vec<String>,
) -> (split: int)
    requires
        more@ == networks@.push(last),
        call_ensures(container_addresses, (networks,), before),
        call_ensures(container_addresses, (more,), after),
    ensures
        0 <= split <= before@.len(),
        networks@.len() == 0 ==> before@.len() == 0,
        ({
            let first = strs(before@).take(split);
            let rest = strs(before@).skip(split);
            let given = last.ip matches Some(ip) && ip@.len() > 0;
            &&& !given ==> strs(after@) == strs(before@)
            &&& given && last.network@ == "bridge"@ ==> strs(after@) == first.push(last.ip->0@)
                + rest.push(last.ip->0@)
            &&& given && last.network@ != "bridge"@ ==> strs(after@) == first + rest.push(
                last.ip->0@,
            )
        }),
{
    assert(more@.drop_last() =~= networks@);
    let a = bridge_ips(networks@);
    let b = all_ips(networks@);
    assert(strs(before@).len() == before@.len());
    assert((a + b).take(a.len() as int) =~= a);
    assert((a + b).skip(a.len() as int) =~= b);
    a.len() as int
}

/// A command check succeeds exactly where the command could be started, and a
/// failure carries the daemon's words.
pub proof fn law_command_check_needs_a_start(run: &CommandRun, r: (HealthCheckStatus, String))
    requires
        call_ensures(command_run_result, (run,), r),
    ensures
        r.0 == HealthCheckStatus::Success <==> *run is Started,
        r.0 == HealthCheckStatus::Failed <==> !(*run is Started),
        *run matches CommandRun::CreateFailed(e) ==> e@.is_suffix_of(r.1@),
        *run matches CommandRun::StartFailed(e) ==> e@.is_suffix_of(r.1@),
{
    match *run {
        CommandRun::CreateFailed(e) => {
            assert(r.1@.subrange(r.1@.len() - e@.len(), r.1@.len() as int) =~= e@);
        },
        CommandRun::StartFailed(e) => {
            assert(r.1@.subrange(r.1@.len() - e@.len(), r.1@.len() as int) =~= e@);
        },
        CommandRun::Started => {},
    }
}

} // verus!
