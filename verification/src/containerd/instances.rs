//! Which containers of a deployment there are, and which of them are active.
use vstd::prelude::*;
use crate::containerd::client::RING_DEPLOYMENT_LABEL;
use crate::entries::lemma_contains_pushed;
use crate::error::{RuntimeError, RuntimeErrorView};
use crate::text::{cat2, cat4, same, strs};

verus! {

/// The state of a container's task.
#[derive(Clone, Copy, Debug, PartialEq, Eq, Structural)]
pub enum TaskStatus {
    Unknown,
    Created,
    Running,
    Stopped,
    Paused,
    Pausing,
}

/// The state with a number.
pub open spec fn status_numbered(n: i32) -> Option<TaskStatus> {
    if n == 0 {
        Some(TaskStatus::Unknown)
    } else if n == 1 {
        Some(TaskStatus::Created)
    } else if n == 2 {
        Some(TaskStatus::Running)
    } else if n == 3 {
        Some(TaskStatus::Stopped)
    } else if n == 4 {
        Some(TaskStatus::Paused)
    } else if n == 5 {
        Some(TaskStatus::Pausing)
    } else {
        None
    }
}

/// The state with a number.
pub fn task_status(n: i32) -> (r: Option<TaskStatus>)
    ensures
        r == status_numbered(n),
{
    if n == 0 {
        Some(TaskStatus::Unknown)
    } else if n == 1 {
        Some(TaskStatus::Created)
    } else if n == 2 {
        Some(TaskStatus::Running)
    } else if n == 3 {
        Some(TaskStatus::Stopped)
    } else if n == 4 {
        Some(TaskStatus::Paused)
    } else if n == 5 {
        Some(TaskStatus::Pausing)
    } else {
        None
    }
}

/// Whether a container counts towards the replicas: its task runs. One whose
/// task never started, has ended or is paused does not.
pub open spec fn counts_as_active(n: i32) -> bool {
    status_numbered(n) == Some(TaskStatus::Running)
}

/// Whether a container counts towards the replicas.
pub fn is_active(status: i32) -> (r: bool)
    ensures
        r == counts_as_active(status),
{
    match task_status(status) {
        Some(TaskStatus::Running) => true,
        _ => false,
    }
}

/// The filter that selects the containers of a deployment.
pub fn label_filter(deployment_id: &str) -> (r: String)
    ensures
        r@ == "labels.\""@ + "ring_deployment"@ + "\"=="@ + deployment_id@,
{
    cat4("labels.\"", RING_DEPLOYMENT_LABEL, "\"==", deployment_id)
}

/// The state of a container's task, where it has one. Of two entries for one
/// container the later one counts.
pub open spec fn status_of(tasks: Seq<(String, i32)>, id: Seq<char>) -> Option<i32>
    decreases tasks.len(),
{
    if tasks.len() == 0 {
        None
    } else if tasks.last().0@ == id {
        Some(tasks.last().1)
    } else {
        status_of(tasks.drop_last(), id)
    }
}

/// The state of a container's task, where it has one.
fn find_status(tasks: &Vec<(String, i32)>, id: &str) -> (r: Option<i32>)
    ensures
        r == status_of(tasks@, id@),
{
    let mut i: usize = tasks.len();
    assert(tasks@.take(tasks.len() as int) =~= tasks@);
    while i > 0
        invariant
            i <= tasks.len(),
            status_of(tasks@, id@) == status_of(tasks@.take(i as int), id@),
        decreases i,
    {
        assert(tasks@.take(i as int).drop_last() =~= tasks@.take(i - 1));
        if same(tasks[i - 1].0.as_str(), id) {
            return Some(tasks[i - 1].1);
        }
        i -= 1;
    }
    None
}

/// The containers that a listing asks for, in their order.
pub open spec fn listed(ids: Seq<Seq<char>>, tasks: Seq<(String, i32)>, all: bool) -> Seq<Seq<char>>
    decreases ids.len(),
{
    if ids.len() == 0 {
        seq![]
    } else {
        let rest = listed(ids.drop_last(), tasks, all);
        if all || (status_of(tasks, ids.last()) matches Some(n) && counts_as_active(n)) {
            rest.push(ids.last())
        } else {
            rest
        }
    }
}

/// The containers of a deployment that a listing asks for: all of them, or
/// those that are active.
pub fn list_instances(ids: &Vec<String>, tasks: &Vec<(String, i32)>, status: &str) -> (r: Vec<
    String,
>)
    ensures
        strs(r@) == listed(strs(ids@), tasks@, status@ == "all"@),
{
    let everything = same(status, "all");
    let ghost all = strs(ids@);
    let mut out: Vec<String> = Vec::new();
    let mut i: usize = 0;
    assert(strs(out@) =~= listed(all.take(0), tasks@, everything));
    while i < ids.len()
        invariant
            i <= ids.len(),
            all == strs(ids@),
            strs(out@) == listed(all.take(i as int), tasks@, everything),
        decreases ids.len() - i,
    {
        assert(all.take(i + 1).drop_last() =~= all.take(i as int));
        assert(all.take(i + 1).last() == ids@[i as int]@);
        let ghost before = out@;
        let keep = if everything {
            true
        } else {
            match find_status(tasks, ids[i].as_str()) {
                Some(n) => is_active(n),
                None => false,
            }
        };
        if keep {
            out.push(ids[i].clone());
            assert(strs(out@) =~= strs(before).push(ids@[i as int]@));
        }
        i += 1;
    }
    assert(all.take(all.len() as int) =~= all);
    out
}

/// The error for a listing that failed.
pub fn list_error(text: &str) -> (r: RuntimeError)
    ensures
        r@ == RuntimeErrorView::Other("ListContainers failed: "@ + text@),
{
    RuntimeError::Other(cat2("ListContainers failed: ", text))
}

/// A listing of all containers leaves none out; no other listing holds one that
/// it does not hold.
pub proof fn law_listing_all_is_complete(ids: Seq<Seq<char>>, tasks: Seq<(String, i32)>)
    ensures
        listed(ids, tasks, true) == ids,
        forall|id: Seq<char>| listed(ids, tasks, false).contains(id) ==> ids.contains(id),
    decreases ids.len(),
{
    if ids.len() > 0 {
        let init = ids.drop_last();
        law_listing_all_is_complete(init, tasks);
        assert(init.push(ids.last()) =~= ids);
        assert forall|id: Seq<char>| listed(ids, tasks, false).contains(id) implies ids.contains(
            id,
        ) by {
            lemma_contains_pushed(init, ids.last(), id);
            lemma_contains_pushed(listed(init, tasks, false), ids.last(), id);
        }
    } else {
        assert(ids =~= Seq::empty());
    }
}

/// A container counts towards the replicas exactly where its task runs; the
/// states are told apart by their numbers, and a number that is not known is
/// none.
pub proof fn law_only_running_tasks_count(n: i32, status: Option<TaskStatus>, active: bool)
    requires
        call_ensures(task_status, (n,), status),
        call_ensures(is_active, (n,), active),
    ensures
        active <==> n == 2,
        active <==> status == Some(TaskStatus::Running),
        status is None <==> n < 0 || n > 5,
        status == Some(TaskStatus::Stopped) <==> n == 3,
        status == Some(TaskStatus::Paused) <==> n == 4,
        status == Some(TaskStatus::Created) <==> n == 1,
{
}

/// A listing of all containers holds every one; any other listing holds exactly
/// those whose task runs, in the same order. `latest` is the last known state of
/// the container that is added, where there is one.
pub proof fn law_listing_takes_the_active_ones(
    ids: &Vec<String>,
    more: &Vec<String>,
    last: String,
    tasks: &Vec<(String, i32)>,
    latest: Option<int>,
    status: &str,
    before: Vec<String>,
    after: Vec<String>,
)
    requires
        more@ == ids@.push(last),
        latest matches Some(k) ==> 0 <= k < tasks@.len() && tasks@[k].0@ == last@ && forall|j: int|
            k < j < tasks@.len() ==> (#[trigger] tasks@[j]).0@ != last@,
        latest is None ==> forall|j: int|
            0 <= j < tasks@.len() ==> (#[trigger] tasks@[j]).0@ != last@,
        call_ensures(list_instances, (ids, tasks, status), before),
        call_ensures(list_instances, (more, tasks, status), after),
    ensures
        ids@.len() == 0 ==> before@.len() == 0,
        ({
            let wanted = status@ == "all"@ || (latest matches Some(k) && tasks@[k].1 == 2);
            &&& wanted ==> strs(after@) == strs(before@).push(last@)
            &&& !wanted ==> strs(after@) == strs(before@)
        }),
{
    assert(strs(more@).drop_last() =~= strs(ids@));
    assert(strs(more@).last() == last@);
    assert(strs(before@).len() == before@.len());
    lemma_status_of(tasks@, last@, latest);
}

/// The last entry for a container is the one that is found.
proof fn lemma_status_of(tasks: Seq<(String, i32)>, id: Seq<char>, latest: Option<int>)
    requires
        latest matches Some(k) ==> 0 <= k < tasks.len() && tasks[k].0@ == id && forall|j: int|
            k < j < tasks.len() ==> (#[trigger] tasks[j]).0@ != id,
        latest is None ==> forall|j: int| 0 <= j < tasks.len() ==> (#[trigger] tasks[j]).0@ != id,
    ensures
        latest matches Some(k) ==> status_of(tasks, id) == Some(tasks[k].1),
        latest is None ==> status_of(tasks, id) is None,
    decreases tasks.len(),
{
    if tasks.len() > 0 {
        let init = tasks.drop_last();
        let end = tasks.len() - 1;
        if tasks.last().0@ == id {
            assert(tasks[end].0@ == id);
            if latest is Some {
                assert(latest->0 == end);
            }
        } else {
            if latest is Some {
                assert(latest->0 < end);
            }
            assert forall|j: int| 0 <= j < init.len() implies init[j] == tasks[j] by {}
            lemma_status_of(init, id, latest);
        }
    }
}

} // verus!
