//! Which containers of a deployment there are.
use vstd::prelude::*;
use crate::docker::exec::{OWNER_LABEL, has_name};
use crate::entries::lemma_contains_pushed;
use crate::models::distinct_names;
use crate::text::{chars_of, copy_opt, opt_str, same, short_id, short_id_of, str_pairs, string_of, strs};

verus! {

/// The state of a container, as the daemon lists it.
#[derive(Clone, Copy, Debug, PartialEq, Eq, Structural)]
pub enum SummaryState {
    Empty,
    Created,
    Running,
    Paused,
    Restarting,
    Exited,
    Removing,
    Dead,
    Stopping,
}

impl SummaryState {
    /// The name of the state.
    pub open spec fn name(&self) -> Seq<char> {
        match *self {
            SummaryState::Empty => ""@,
            SummaryState::Created => "created"@,
            SummaryState::Running => "running"@,
            SummaryState::Paused => "paused"@,
            SummaryState::Restarting => "restarting"@,
            SummaryState::Exited => "exited"@,
            SummaryState::Removing => "removing"@,
            SummaryState::Dead => "dead"@,
            SummaryState::Stopping => "stopping"@,
        }
    }

    /// The name of the state.
    pub fn as_str(&self) -> (r: &'static str)
        ensures
            r@ == self.name(),
    {
        match self {
            SummaryState::Empty => "",
            SummaryState::Created => "created",
            SummaryState::Running => "running",
            SummaryState::Paused => "paused",
            SummaryState::Restarting => "restarting",
            SummaryState::Exited => "exited",
            SummaryState::Removing => "removing",
            SummaryState::Dead => "dead",
            SummaryState::Stopping => "stopping",
        }
    }
}

/// A container, as the daemon lists it.
#[derive(Debug)]
pub struct ContainerSummary {
    pub id: Option<String>,
    pub names: Option<Vec<String>>,
    pub labels: Option<Vec<(String, String)>>,
    pub state: Option<SummaryState>,
}

/// What the daemon is asked for.
#[derive(Clone, Copy, Debug, PartialEq, Eq, Structural)]
pub struct ListOptions {
    /// Whether containers that do not run are listed too.
    pub all: bool,
}

/// What the daemon is asked for: always all containers, since a daemon that
/// does not know a state would fail the whole request. The states are told
/// apart here.
pub fn build_list_options(_status: &str) -> (r: ListOptions)
    ensures
        r.all,
{
    ListOptions { all: true }
}

/// Whether a container in this state is asked for.
pub open spec fn state_matches(state: Option<SummaryState>, status: Seq<char>) -> bool {
    if status == "all"@ {
        true
    } else if status == "active"@ {
        state == Some(SummaryState::Running) || state == Some(SummaryState::Restarting)
    } else {
        match state {
            Some(s) => s.name() == status,
            None => false,
        }
    }
}

/// Whether a container in this state is asked for. A container that was created
/// and did not start is not active.
pub fn matches_status(state: Option<&SummaryState>, status: &str) -> (r: bool)
    ensures
        r == state_matches(
            match state {
                Some(s) => Some(*s),
                None => None,
            },
            status@,
        ),
{
    if same(status, "all") {
        return true;
    }
    if same(status, "active") {
        return match state {
            Some(s) => *s == SummaryState::Running || *s == SummaryState::Restarting,
            None => false,
        };
    }
    match state {
        Some(s) => same(s.as_str(), status),
        None => false,
    }
}

/// The value of a label; that of the first entry with its name.
pub open spec fn label_value(labels: Seq<(String, String)>, name: Seq<char>) -> Option<Seq<char>>
    decreases labels.len(),
{
    if labels.len() == 0 {
        None
    } else if labels[0].0@ == name {
        Some(labels[0].1@)
    } else {
        label_value(labels.skip(1), name)
    }
}

/// The value of a label.
pub fn find_label(labels: &Vec<(String, String)>, name: &str) -> (r: Option<String>)
    ensures
        opt_str(r) == label_value(labels@, name@),
{
    let mut i: usize = 0;
    assert(labels@.skip(0) =~= labels@);
    while i < labels.len()
        invariant
            i <= labels.len(),
            label_value(labels@, name@) == label_value(labels@.skip(i as int), name@),
        decreases labels.len() - i,
    {
        assert(labels@.skip(i as int)[0] == labels@[i as int]);
        assert(labels@.skip(i as int).skip(1) =~= labels@.skip(i + 1));
        if same(labels[i].0.as_str(), name) {
            return Some(labels[i].1.clone());
        }
        i += 1;
    }
    None
}

/// The deployment that a container belongs to, where it belongs to one.
pub open spec fn owner_of(c: ContainerSummary) -> Option<Seq<char>> {
    match c.labels {
        Some(labels) => label_value(labels@, "ring_deployment"@),
        None => None,
    }
}

/// The deployment that a container belongs to.
fn container_owner(c: &ContainerSummary) -> (r: Option<String>)
    ensures
        opt_str(r) == owner_of(*c),
{
    match &c.labels {
        Some(labels) => find_label(labels, OWNER_LABEL),
        None => None,
    }
}

/// The id of a container that a listing asks for: one of this deployment, in
/// this state, that has an id.
pub open spec fn listed_id(c: ContainerSummary, deployment: Seq<char>, status: Seq<char>) -> Option<
    Seq<char>,
> {
    if state_matches(c.state, status) && owner_of(c) == Some(deployment) {
        opt_str(c.id)
    } else {
        None
    }
}

/// The id of a container that a listing asks for.
fn matching_id(c: &ContainerSummary, deployment: &str, status: &str) -> (r: Option<String>)
    ensures
        opt_str(r) == listed_id(*c, deployment@, status@),
{
    let wanted = match &c.state {
        Some(s) => matches_status(Some(s), status),
        None => matches_status(None, status),
    };
    if !wanted {
        return None;
    }
    match container_owner(c) {
        Some(owner) => {
            if same(owner.as_str(), deployment) {
                copy_opt(&c.id)
            } else {
                None
            }
        },
        None => None,
    }
}

/// The containers of a deployment in a state, in the daemon's order.
pub open spec fn listed_ids(
    containers: Seq<ContainerSummary>,
    deployment: Seq<char>,
    status: Seq<char>,
) -> Seq<Seq<char>>
    decreases containers.len(),
{
    if containers.len() == 0 {
        seq![]
    } else {
        let rest = listed_ids(containers.drop_last(), deployment, status);
        match listed_id(containers.last(), deployment, status) {
            Some(id) => rest.push(id),
            None => rest,
        }
    }
}

/// The containers of a deployment in a state.
pub fn list_instances(containers: &Vec<ContainerSummary>, deployment_id: &str, status: &str) -> (r:
    Vec<String>)
    ensures
        strs(r@) == listed_ids(containers@, deployment_id@, status@),
{
    let mut out: Vec<String> = Vec::new();
    let mut i: usize = 0;
    assert(strs(out@) =~= listed_ids(containers@.take(0), deployment_id@, status@));
    while i < containers.len()
        invariant
            i <= containers.len(),
            strs(out@) == listed_ids(containers@.take(i as int), deployment_id@, status@),
        decreases containers.len() - i,
    {
        assert(containers@.take(i + 1).drop_last() =~= containers@.take(i as int));
        let ghost before = out@;
        if let Some(id) = matching_id(&containers[i], deployment_id, status) {
            out.push(id);
            assert(strs(out@) =~= strs(before).push(id@));
        }
        i += 1;
    }
    assert(containers@.take(containers.len() as int) =~= containers@);
    out
}

/// `s` without the slashes at its front.
pub open spec fn without_slashes(s: Seq<char>) -> Seq<char>
    decreases s.len(),
{
    if s.len() > 0 && s[0] == '/' {
        without_slashes(s.skip(1))
    } else {
        s
    }
}

/// `s` without the slashes at its front.
fn trim_slashes(s: &str) -> (r: String)
    ensures
        r@ == without_slashes(s@),
{
    let text = chars_of(s);
    let mut i: usize = 0;
    assert(s@.skip(0) =~= s@);
    while i < text.len() && text[i] == '/'
        invariant
            text@ == s@,
            i <= text.len(),
            without_slashes(s@) == without_slashes(s@.skip(i as int)),
        decreases text.len() - i,
    {
        assert(s@.skip(i as int).skip(1) =~= s@.skip(i + 1));
        i += 1;
    }
    let out = string_of(&text, i, text.len());
    assert(out@ =~= s@.skip(i as int));
    out
}

/// The name that a container is shown under: its first name, or the short form
/// of its id.
pub open spec fn shown_name(c: ContainerSummary, id: Seq<char>) -> Seq<char> {
    match c.names {
        Some(names) => if names.len() > 0 {
            without_slashes(names@[0]@)
        } else {
            short_id_of(id)
        },
        None => short_id_of(id),
    }
}

/// The containers of a deployment in a state, with their names.
pub open spec fn listed_pairs(
    containers: Seq<ContainerSummary>,
    deployment: Seq<char>,
    status: Seq<char>,
) -> Seq<(Seq<char>, Seq<char>)>
    decreases containers.len(),
{
    if containers.len() == 0 {
        seq![]
    } else {
        let rest = listed_pairs(containers.drop_last(), deployment, status);
        match listed_id(containers.last(), deployment, status) {
            Some(id) => rest.push((id, shown_name(containers.last(), id))),
            None => rest,
        }
    }
}

/// The name that a container is shown under.
fn display_name(c: &ContainerSummary, id: &str) -> (r: String)
    ensures
        r@ == shown_name(*c, id@),
{
    match &c.names {
        Some(names) => {
            if names.len() > 0 {
                trim_slashes(names[0].as_str())
            } else {
                short_id(id)
            }
        },
        None => short_id(id),
    }
}

/// The containers of a deployment in a state, with the names that they are
/// shown under.
pub fn list_instances_with_names(
    containers: &Vec<ContainerSummary>,
    deployment_id: &str,
    status: &str,
) -> (r: Vec<(String, String)>)
    ensures
        str_pairs(r@) == listed_pairs(containers@, deployment_id@, status@),
{
    let mut out: Vec<(String, String)> = Vec::new();
    let mut i: usize = 0;
    assert(str_pairs(out@) =~= listed_pairs(containers@.take(0), deployment_id@, status@));
    while i < containers.len()
        invariant
            i <= containers.len(),
            str_pairs(out@) == listed_pairs(containers@.take(i as int), deployment_id@, status@),
        decreases containers.len() - i,
    {
        assert(containers@.take(i + 1).drop_last() =~= containers@.take(i as int));
        let ghost before = out@;
        if let Some(id) = matching_id(&containers[i], deployment_id, status) {
            let name = display_name(&containers[i], id.as_str());
            let entry = (id, name);
            out.push(entry);
            assert(str_pairs(out@) =~= str_pairs(before).push((entry.0@, entry.1@)));
        }
        i += 1;
    }
    assert(containers@.take(containers.len() as int) =~= containers@);
    out
}

/// The running containers of the wanted deployments, one group per deployment
/// that has any.
pub open spec fn is_grouping(
    groups: Seq<(String, Vec<String>)>,
    containers: Seq<ContainerSummary>,
    wanted: Seq<Seq<char>>,
) -> bool {
    &&& distinct_names(groups)
    &&& forall|i: int|
        0 <= i < groups.len() ==> wanted.contains((#[trigger] groups[i]).0@) && strs(groups[i].1@)
            == listed_ids(containers, groups[i].0@, "running"@) && groups[i].1.len() > 0
    &&& forall|k: int|
        0 <= k < wanted.len() && listed_ids(containers, #[trigger] wanted[k], "running"@).len() > 0
            ==> has_name(groups, wanted[k])
}

/// The running containers of the wanted deployments, from one listing.
pub fn list_running_instances_grouped(
    containers: &Vec<ContainerSummary>,
    wanted: &Vec<String>,
) -> (r: Vec<(String, Vec<String>)>)
    ensures
        is_grouping(r@, containers@, strs(wanted@)),
{
    let mut groups: Vec<(String, Vec<String>)> = Vec::new();
    let ghost names = strs(wanted@);
    let mut i: usize = 0;
    while i < wanted.len()
        invariant
            i <= wanted.len(),
            names == strs(wanted@),
            distinct_names(groups@),
            forall|g: int|
                0 <= g < groups.len() ==> names.contains((#[trigger] groups@[g]).0@) && strs(
                    groups@[g].1@,
                ) == listed_ids(containers@, groups@[g].0@, "running"@) && groups@[g].1.len() > 0,
            forall|g: int|
                0 <= g < groups.len() ==> names.take(i as int).contains(
                    (#[trigger] groups@[g]).0@,
                ),
            forall|k: int|
                0 <= k < i && listed_ids(containers@, #[trigger] names[k], "running"@).len() > 0
                    ==> has_name(groups@, names[k]),
        decreases wanted.len() - i,
    {
        let ghost before = groups@;
        assert(names[i as int] == wanted@[i as int]@);
        assert(names.take(i + 1) =~= names.take(i as int).push(names[i as int]));
        let ids = list_instances(containers, wanted[i].as_str(), "running");
        assert(strs(ids@).len() == ids@.len());
        let known = has_group(&groups, wanted[i].as_str());
        if ids.len() > 0 && !known {
            let entry = (wanted[i].clone(), ids);
            groups.push(entry);
            assert(groups@[before.len() as int].0@ == names[i as int]);
        }
        assert forall|g: int| 0 <= g < groups.len() implies names.take(i + 1).contains(
            (#[trigger] groups@[g]).0@,
        ) by {
            lemma_contains_pushed(names.take(i as int), names[i as int], groups@[g].0@);
            if g < before.len() {
                assert(groups@[g] == before[g]);
            }
        }
        assert forall|g: int| 0 <= g < groups.len() implies names.contains(
            (#[trigger] groups@[g]).0@,
        ) by {
            if g < before.len() {
                assert(groups@[g] == before[g]);
            } else {
                assert(names[i as int] == groups@[g].0@);
            }
        }
        assert(distinct_names(groups@)) by {
            assert forall|a: int, b: int| 0 <= a < b < groups@.len() implies (
            #[trigger] groups@[a]).0@ != (#[trigger] groups@[b]).0@ by {
                assert(groups@[a] == before[a]);
                if b < before.len() {
                    assert(groups@[b] == before[b]);
                }
            }
        }
        assert forall|k: int|
            0 <= k < i + 1 && listed_ids(containers@, #[trigger] names[k], "running"@).len()
                > 0 implies has_name(groups@, names[k]) by {
            if k < i {
                assert(has_name(before, names[k]));
                let g = choose|g: int| 0 <= g < before.len() && (#[trigger] before[g]).0@ == names[k];
                assert(groups@[g].0@ == names[k]);
            } else if known {
                let g = choose|g: int| 0 <= g < before.len() && (#[trigger] before[g]).0@ == names[k];
                assert(groups@[g].0@ == names[k]);
            } else {
                assert(groups@[before.len() as int].0@ == names[k]);
            }
        }
        i += 1;
    }
    groups
}

/// Whether there is a group with this name.
fn has_group(groups: &Vec<(String, Vec<String>)>, name: &str) -> (r: bool)
    ensures
        r == has_name(groups@, name@),
{
    let mut i: usize = 0;
    while i < groups.len()
        invariant
            i <= groups.len(),
            forall|j: int| 0 <= j < i ==> (#[trigger] groups@[j]).0@ != name@,
        decreases groups.len() - i,
    {
        if same(groups[i].0.as_str(), name) {
            assert(groups@[i as int].0@ == name@);
            return true;
        }
        i += 1;
    }
    false
}

/// A listing of all states holds every container that a listing of one state
/// holds.
pub proof fn law_all_covers_every_state(
    containers: Seq<ContainerSummary>,
    deployment: Seq<char>,
    status: Seq<char>,
    id: Seq<char>,
)
    ensures
        listed_ids(containers, deployment, status).contains(id) ==> listed_ids(
            containers,
            deployment,
            "all"@,
        ).contains(id),
    decreases containers.len(),
{
    if containers.len() > 0 {
        let init = containers.drop_last();
        law_all_covers_every_state(init, deployment, status, id);
        if let Some(found) = listed_id(containers.last(), deployment, "all"@) {
            lemma_contains_pushed(listed_ids(init, deployment, "all"@), found, id);
        }
        if let Some(found) = listed_id(containers.last(), deployment, status) {
            lemma_contains_pushed(listed_ids(init, deployment, status), found, id);
        }
    }
}

/// Which containers are asked for. A container is active exactly where it runs
/// or is restarted; one whose state is not known is found only among all.
pub proof fn law_state_is_asked_for(state: Option<&SummaryState>, status: &str, r: bool)
    requires
        call_ensures(matches_status, (state, status), r),
    ensures
        status@ == "all"@ ==> r,
        status@ == "active"@ ==> (r <==> (state matches Some(s) && (*s == SummaryState::Running || *s
            == SummaryState::Restarting))),
        status@ == "running"@ ==> (r <==> (state matches Some(s) && *s == SummaryState::Running)),
        status@ == "exited"@ ==> (r <==> (state matches Some(s) && *s == SummaryState::Exited)),
        state is None && status@ != "all"@ ==> !r,
{
    reveal_strlit("all");
    reveal_strlit("active");
    reveal_strlit("running");
    reveal_strlit("exited");
    reveal_strlit("");
    reveal_strlit("created");
    reveal_strlit("paused");
    reveal_strlit("restarting");
    reveal_strlit("removing");
    reveal_strlit("dead");
    reveal_strlit("stopping");
    assert("active"@[0] == 'a');
    assert("running"@[0] == 'r' && "running"@.len() == 7);
    assert("exited"@[0] == 'e');
    assert("created"@[0] == 'c');
    assert("paused"@[0] == 'p');
    assert("restarting"@.len() == 10);
    assert("removing"@.len() == 8);
    assert("dead"@[0] == 'd');
    assert("stopping"@[0] == 's');
    assert("all"@.len() == 3);
    assert(""@.len() == 0);
}

/// The label that a look-up finds is that of the first entry with its name: a
/// further entry in front answers for its own name and hides no other.
pub proof fn law_first_label_answers(
    labels: &Vec<(String, String)>,
    more: &Vec<(String, String)>,
    front: (String, String),
    name: &str,
    found: Option<String>,
    after: Option<String>,
)
    requires
        more@ == seq![front] + labels@,
        call_ensures(find_label, (labels, name), found),
        call_ensures(find_label, (more, name), after),
    ensures
        labels@.len() == 0 ==> found is None,
        front.0@ == name@ ==> opt_str(after) == Some(front.1@),
        front.0@ != name@ ==> opt_str(after) == opt_str(found),
{
    assert(more@[0] == front);
    assert(more@.skip(1) =~= labels@);
}

/// A listing holds exactly the containers that carry the deployment's label, are
/// in a state that is asked for and have an id, in the daemon's order: one more
/// container adds its id at the end, or nothing. Both listings agree on which.
pub proof fn law_listing_takes_the_own_containers(
    containers: &Vec<ContainerSummary>,
    more: &Vec<ContainerSummary>,
    last: ContainerSummary,
    deployment_id: &str,
    status: &str,
    wanted: bool,
    before: Vec<String>,
    after: Vec<String>,
    named: Vec<(String, String)>,
    named_after: Vec<(String, String)>,
)
    requires
        more@ == containers@.push(last),
        call_ensures(
            matches_status,
            (
                match &last.state {
                    Some(s) => Some(s),
                    None => None,
                },
                status,
            ),
            wanted,
        ),
        call_ensures(list_instances, (containers, deployment_id, status), before),
        call_ensures(list_instances, (more, deployment_id, status), after),
        call_ensures(list_instances_with_names, (containers, deployment_id, status), named),
        call_ensures(list_instances_with_names, (more, deployment_id, status), named_after),
    ensures
        containers@.len() == 0 ==> before@.len() == 0 && named@.len() == 0,
        ({
            let own = last.labels matches Some(labels) && label_value(
                labels@,
                "ring_deployment"@,
            ) == Some(deployment_id@);
            &&& wanted && own && last.id is Some ==> strs(after@) == strs(before@).push(
                last.id->0@,
            )
            &&& !(wanted && own && last.id is Some) ==> strs(after@) == strs(before@)
            &&& wanted && own && last.id is Some ==> named_after@.len() == named@.len() + 1
                && named_after@.last().0@ == last.id->0@ && str_pairs(named_after@).drop_last()
                == str_pairs(named@)
            &&& !(wanted && own && last.id is Some) ==> str_pairs(named_after@) == str_pairs(named@)
        }),
{
    assert(more@.drop_last() =~= containers@);
    assert(strs(before@).len() == before@.len());
    assert(strs(after@).len() == after@.len());
    assert(str_pairs(named@).len() == named@.len());
    assert(str_pairs(named_after@).len() == named_after@.len());
    if wanted && owner_of(last) == Some(deployment_id@) && last.id is Some {
        assert(str_pairs(named_after@).last() == (
            named_after@.last().0@,
            named_after@.last().1@,
        ));
        assert(str_pairs(named_after@).drop_last() =~= str_pairs(named@));
    }
}

/// Every wanted deployment with running containers has exactly one group, which
/// holds what a listing of its running containers holds.
pub proof fn law_groups_hold_the_listings(
    containers: &Vec<ContainerSummary>,
    wanted: &Vec<String>,
    groups: Vec<(String, Vec<String>)>,
    k: int,
    name: &str,
    listed: Vec<String>,
)
    requires
        0 <= k < wanted@.len(),
        name@ == wanted@[k]@,
        call_ensures(list_running_instances_grouped, (containers, wanted), groups),
        call_ensures(list_instances, (containers, name, "running"), listed),
    ensures
        listed@.len() > 0 ==> exists|g: int|
            0 <= g < groups@.len() && (#[trigger] groups@[g]).0@ == wanted@[k]@ && strs(
                groups@[g].1@,
            ) == strs(listed@),
        listed@.len() == 0 ==> forall|g: int|
            0 <= g < groups@.len() ==> (#[trigger] groups@[g]).0@ != wanted@[k]@,
{
    let names = strs(wanted@);
    assert(names[k] == wanted@[k]@);
    assert(strs(listed@) == listed_ids(containers@, wanted@[k]@, "running"@));
    assert(strs(listed@).len() == listed@.len());
    if listed@.len() > 0 {
        assert(has_name(groups@, names[k]));
    } else {
        assert forall|g: int| 0 <= g < groups@.len() implies (#[trigger] groups@[g]).0@
            != wanted@[k]@ by {
            assert(strs(groups@[g].1@).len() == groups@[g].1@.len());
        }
    }
}

} // verus!
