//! Interactive commands in a container: which containers they are let into, and
//! what their output becomes.
use vstd::prelude::*;
use crate::text::{cat2, cat4, contains, has, same};

verus! {

/// How long the end of a command is waited for, in milliseconds.
pub const EXIT_POLL_TIMEOUT_MILLIS: u64 = 5000;

/// How long is waited between two looks, in milliseconds.
pub const EXIT_POLL_INTERVAL_MILLIS: u64 = 50;

/// The label under which a container records the deployment that it belongs
/// to.
pub const OWNER_LABEL: &'static str = "ring_deployment";

/// The size of a terminal.
#[derive(Clone, Copy, Debug, PartialEq, Eq, Structural)]
pub struct TerminalSize {
    pub rows: u16,
    pub cols: u16,
}

/// A command that is to be run in a container.
#[derive(Debug)]
pub struct ExecRequest {
    pub command: Vec<String>,
    pub tty: bool,
    pub size: Option<TerminalSize>,
}

/// A piece of a command's output.
#[derive(Debug, PartialEq, Eq)]
pub enum ExecOutput {
    Stdout(Vec<u8>),
    Stderr(Vec<u8>),
}

/// An [`ExecOutput`] by its contents.
pub enum OutputView {
    Stdout(Seq<u8>),
    Stderr(Seq<u8>),
}

impl View for ExecOutput {
    type V = OutputView;

    open spec fn view(&self) -> OutputView {
        match *self {
            ExecOutput::Stdout(b) => OutputView::Stdout(b@),
            ExecOutput::Stderr(b) => OutputView::Stderr(b@),
        }
    }
}

/// Why a command was not run, or ended.
#[derive(Debug, PartialEq, Eq)]
pub enum ExecError {
    /// The container cannot be entered.
    InstanceUnavailable(String),
    Failed(String),
}

/// An [`ExecError`] by its contents.
pub enum ExecErrorView {
    InstanceUnavailable(Seq<char>),
    Failed(Seq<char>),
}

impl View for ExecError {
    type V = ExecErrorView;

    open spec fn view(&self) -> ExecErrorView {
        match *self {
            ExecError::InstanceUnavailable(s) => ExecErrorView::InstanceUnavailable(s@),
            ExecError::Failed(s) => ExecErrorView::Failed(s@),
        }
    }
}

/// See that there is a command to run.
pub fn check_request(request: &ExecRequest) -> (r: Result<(), ExecError>)
    ensures
        r is Ok <==> request.command.len() > 0,
        r matches Err(e) ==> e@ == ExecErrorView::Failed("empty command"@),
{
    if request.command.len() == 0 {
        Err(ExecError::Failed("empty command".to_owned()))
    } else {
        Ok(())
    }
}

/// The terminal size that is set when a command starts: only one with a
/// terminal has one.
pub fn initial_size(request: &ExecRequest) -> (r: Option<TerminalSize>)
    ensures
        r == if request.tty {
            request.size
        } else {
            None
        },
{
    if request.tty {
        request.size
    } else {
        None
    }
}

/// What the daemon says about a container: its labels and whether it runs, or
/// the text of the error where it says nothing.
#[derive(Debug)]
pub enum Inspection {
    Found { labels: Option<Vec<(String, String)>>, running: Option<bool> },
    Error(String),
}

/// Whether some entry has this name.
pub open spec fn has_name<V>(entries: Seq<(String, V)>, name: Seq<char>) -> bool {
    exists|i: int| 0 <= i < entries.len() && (#[trigger] entries[i]).0@ == name
}

/// Whether a container is one of ours.
pub open spec fn is_managed(labels: Option<Vec<(String, String)>>) -> bool {
    labels matches Some(list) && has_name(list@, "ring_deployment"@)
}

/// Whether a container is one of ours: it has the label that names its
/// deployment.
fn managed(labels: &Option<Vec<(String, String)>>) -> (r: bool)
    ensures
        r == is_managed(*labels),
{
    match labels {
        Some(list) => {
            let mut i: usize = 0;
            while i < list.len()
                invariant
                    i <= list.len(),
                    *labels == Some(*list),
                    forall|j: int|
                        0 <= j < i ==> (#[trigger] list@[j]).0@ != "ring_deployment"@,
                decreases list.len() - i,
            {
                if same(list[i].0.as_str(), OWNER_LABEL) {
                    assert(list@[i as int].0@ == "ring_deployment"@);
                    assert(has_name(list@, "ring_deployment"@));
                    return true;
                }
                i += 1;
            }
            assert(!has_name(list@, "ring_deployment"@));
            false
        },
        None => false,
    }
}

/// Why a container cannot be entered; `None` where it can.
pub open spec fn admission_error(id: Seq<char>, inspection: Inspection) -> Option<ExecErrorView> {
    match inspection {
        Inspection::Error(text) => if contains(text@, "404"@) || contains(
            text@,
            "No such container"@,
        ) {
            Some(ExecErrorView::InstanceUnavailable(id + " does not exist"@))
        } else {
            Some(ExecErrorView::Failed("could not inspect "@ + id + ": "@ + text@))
        },
        Inspection::Found { labels, running } => if !is_managed(labels) {
            Some(ExecErrorView::InstanceUnavailable(id + " is not a Ring-managed instance"@))
        } else if running != Some(true) {
            Some(ExecErrorView::InstanceUnavailable(id + " is not running"@))
        } else {
            None
        },
    }
}

/// Whether a container can be entered: it exists, is one of ours and runs. A
/// container of someone else is refused whatever its state.
pub fn admit_exec(instance_id: &str, inspection: &Inspection) -> (r: Result<(), ExecError>)
    ensures
        match admission_error(instance_id@, *inspection) {
            Some(error) => r matches Err(e) && e@ == error,
            None => r is Ok,
        },
{
    match inspection {
        Inspection::Error(text) => {
            if has(text.as_str(), "404") || has(text.as_str(), "No such container") {
                Err(ExecError::InstanceUnavailable(cat2(instance_id, " does not exist")))
            } else {
                Err(
                    ExecError::Failed(
                        cat4("could not inspect ", instance_id, ": ", text.as_str()),
                    ),
                )
            }
        },
        Inspection::Found { labels, running } => {
            if !managed(labels) {
                return Err(
                    ExecError::InstanceUnavailable(
                        cat2(instance_id, " is not a Ring-managed instance"),
                    ),
                );
            }
            let up = match running {
                Some(b) => *b,
                None => false,
            };
            if !up {
                return Err(ExecError::InstanceUnavailable(cat2(instance_id, " is not running")));
            }
            Ok(())
        },
    }
}

/// The error for a command that could not be registered.
pub fn create_exec_error(text: &str) -> (r: ExecError)
    ensures
        r@ == ExecErrorView::Failed("could not create exec: "@ + text@),
{
    ExecError::Failed(cat2("could not create exec: ", text))
}

/// The error for a command that could not be started.
pub fn start_exec_error(text: &str) -> (r: ExecError)
    ensures
        r@ == ExecErrorView::Failed("could not start exec: "@ + text@),
{
    ExecError::Failed(cat2("could not start exec: ", text))
}

/// The error for a command that the daemon did not attach.
pub fn detached_error() -> (r: ExecError)
    ensures
        r@ == ExecErrorView::Failed("docker detached the exec session"@),
{
    ExecError::Failed("docker detached the exec session".to_owned())
}

// ---------------------------------------------------------------------------
// Output
// ---------------------------------------------------------------------------

/// A frame of a command's output, as the daemon sends it.
#[derive(Debug)]
pub enum Frame {
    StdOut(Vec<u8>),
    StdErr(Vec<u8>),
    /// What was typed, echoed.
    StdIn(Vec<u8>),
    /// Everything, where the command has a terminal.
    Console(Vec<u8>),
}

/// An item of the output, by its contents.
pub open spec fn item_view(item: Result<ExecOutput, ExecError>) -> Result<
    OutputView,
    ExecErrorView,
> {
    match item {
        Ok(o) => Ok(o@),
        Err(e) => Err(e@),
    }
}

/// What a frame becomes; `None` for one that is dropped.
pub open spec fn frame_item(chunk: Result<Frame, String>) -> Option<
    Result<OutputView, ExecErrorView>,
> {
    match chunk {
        Ok(Frame::StdOut(b)) => Some(Ok(OutputView::Stdout(b@))),
        Ok(Frame::Console(b)) => Some(Ok(OutputView::Stdout(b@))),
        Ok(Frame::StdErr(b)) => Some(Ok(OutputView::Stderr(b@))),
        Ok(Frame::StdIn(b)) => None,
        Err(e) => Some(Err(ExecErrorView::Failed("exec stream failed: "@ + e@))),
    }
}

/// What a frame becomes. What was typed is dropped, or every key would come
/// back twice.
pub fn map_frame(chunk: Result<Frame, String>) -> (r: Option<Result<ExecOutput, ExecError>>)
    ensures
        match frame_item(chunk) {
            Some(item) => r matches Some(found) && item_view(found) == item,
            None => r is None,
        },
{
    match chunk {
        Ok(Frame::StdOut(b)) => Some(Ok(ExecOutput::Stdout(b))),
        Ok(Frame::Console(b)) => Some(Ok(ExecOutput::Stdout(b))),
        Ok(Frame::StdErr(b)) => Some(Ok(ExecOutput::Stderr(b))),
        Ok(Frame::StdIn(_)) => None,
        Err(e) => Some(Err(ExecError::Failed(cat2("exec stream failed: ", e.as_str())))),
    }
}

/// What some chunks become, in their order.
pub open spec fn chunk_items(chunks: Seq<Result<Frame, String>>) -> Seq<
    Result<OutputView, ExecErrorView>,
>
    decreases chunks.len(),
{
    if chunks.len() == 0 {
        seq![]
    } else {
        match frame_item(chunks[0]) {
            Some(item) => seq![item] + if chunks[0] is Err {
                seq![]
            } else {
                chunk_items(chunks.skip(1))
            },
            None => chunk_items(chunks.skip(1)),
        }
    }
}

/// The items of an output, by their contents.
pub open spec fn item_views(items: Seq<Result<ExecOutput, ExecError>>) -> Seq<
    Result<OutputView, ExecErrorView>,
> {
    items.map_values(|i: Result<ExecOutput, ExecError>| item_view(i))
}

/// What the chunks of an output become. The first error is handed on and ends
/// the output.
pub fn map_output(chunks: Vec<Result<Frame, String>>) -> (r: Vec<Result<ExecOutput, ExecError>>)
    ensures
        item_views(r@) == chunk_items(chunks@),
{
    let mut rest = chunks;
    let ghost all = chunks@;
    let mut out: Vec<Result<ExecOutput, ExecError>> = Vec::new();
    assert(item_views(out@) + chunk_items(all) =~= chunk_items(all));
    while rest.len() > 0
        invariant
            all == chunks@,
            chunk_items(all) == item_views(out@) + chunk_items(rest@),
        decreases rest.len(),
    {
        let ghost before = out@;
        let ghost pending = rest@;
        let chunk = rest.remove(0);
        assert(chunk == pending[0]);
        assert(rest@ =~= pending.skip(1));
        let last = chunk.is_err();
        if let Some(item) = map_frame(chunk) {
            out.push(item);
            assert(item_views(out@) =~= item_views(before).push(item_view(item)));
            if last {
                assert(item_views(out@) =~= item_views(before) + (seq![item_view(item)] + seq![]));
                return out;
            }
            assert(item_views(out@) + chunk_items(rest@) =~= item_views(before) + (seq![
                item_view(item),
            ] + chunk_items(rest@)));
        }
    }
    assert(item_views(out@) + chunk_items(rest@) =~= item_views(out@));
    out
}

/// What is done after a look at a command that was started.
#[derive(Clone, Copy, Debug, PartialEq, Eq, Structural)]
pub enum ExitPoll {
    /// The command has ended with this code, as far as it is known.
    Ended(Option<i64>),
    /// Wait and look again.
    Again,
}

/// What is done after a look at a command: the daemon's answer, `None` where
/// there is none, and whether the time is up.
pub fn poll_exit(answer: Option<(Option<bool>, Option<i64>)>, time_is_up: bool) -> (r: ExitPoll)
    ensures
        r == match answer {
            Some(a) => if a.0 != Some(true) {
                ExitPoll::Ended(a.1)
            } else if time_is_up {
                ExitPoll::Ended(None)
            } else {
                ExitPoll::Again
            },
            None => ExitPoll::Ended(None),
        },
{
    match answer {
        Some((running, code)) => {
            let up = match running {
                Some(b) => b,
                None => false,
            };
            if !up {
                ExitPoll::Ended(code)
            } else if time_is_up {
                ExitPoll::Ended(None)
            } else {
                ExitPoll::Again
            }
        },
        None => ExitPoll::Ended(None),
    }
}

// ---------------------------------------------------------------------------
// Laws
// ---------------------------------------------------------------------------

/// Only a container of ours that runs can be entered.
pub proof fn law_only_own_running_containers(id: Seq<char>, inspection: Inspection)
    ensures
        admission_error(id, inspection) is None <==> (inspection matches Inspection::Found {
            labels,
            running,
        } && is_managed(labels) && running == Some(true)),
{
}

/// An output holds at most one error, and nothing after it.
pub proof fn law_error_ends_output(chunks: Seq<Result<Frame, String>>)
    ensures
        forall|i: int|
            0 <= i < chunk_items(chunks).len() && (#[trigger] chunk_items(chunks)[i]) is Err ==> i
                == chunk_items(chunks).len() - 1,
    decreases chunks.len(),
{
    if chunks.len() > 0 {
        law_error_ends_output(chunks.skip(1));
        let rest = chunk_items(chunks.skip(1));
        let all = chunk_items(chunks);
        assert forall|i: int| 0 <= i < all.len() && (#[trigger] all[i]) is Err implies i
            == all.len() - 1 by {
            if let Some(item) = frame_item(chunks[0]) {
                if chunks[0] is Ok {
                    assert(item is Ok);
                    assert(all =~= seq![item] + rest);
                    if i > 0 {
                        assert(all[i] == rest[i - 1]);
                    }
                }
            }
        }
    }
}

/// A command is let into a container exactly where the daemon found it, it
/// carries the label of this runtime and it runs. A container of someone else
/// is refused as such even where it runs.
pub proof fn law_exec_needs_an_own_running_container(
    instance_id: &str,
    inspection: &Inspection,
    r: Result<(), ExecError>,
)
    requires
        call_ensures(admit_exec, (instance_id, inspection), r),
    ensures
        r is Ok <==> (*inspection matches Inspection::Found { labels, running } && running == Some(
            true,
        ) && (labels matches Some(list) && exists|i: int|
            0 <= i < list@.len() && (#[trigger] list@[i]).0@ == "ring_deployment"@)),
        *inspection is Found && r is Err ==> r->Err_0 is InstanceUnavailable,
        *inspection matches Inspection::Error(text) ==> (r matches Err(e) && (
        e is InstanceUnavailable <==> contains(text@, "404"@) || contains(
            text@,
            "No such container"@,
        ))),
{
}

/// A command with nothing to run is refused, and a terminal's size is set only
/// for a command that has a terminal.
pub proof fn law_request_is_looked_at(
    request: &ExecRequest,
    checked: Result<(), ExecError>,
    size: Option<TerminalSize>,
)
    requires
        call_ensures(check_request, (request,), checked),
        call_ensures(initial_size, (request,), size),
    ensures
        checked is Err <==> request.command@.len() == 0,
        !request.tty ==> size is None,
        request.tty ==> size == request.size,
{
}

/// What is written to either stream is handed on byte for byte, that of a
/// terminal as standard output; only what was typed is dropped, and an error is
/// handed on as one.
pub proof fn law_frames_are_handed_on(
    chunk: Result<Frame, String>,
    r: Option<Result<ExecOutput, ExecError>>,
)
    requires
        call_ensures(map_frame, (chunk,), r),
    ensures
        r is None <==> (chunk matches Ok(frame) && frame is StdIn),
        chunk matches Ok(Frame::StdOut(b)) ==> (r matches Some(Ok(o)) && o@ == OutputView::Stdout(
            b@,
        )),
        chunk matches Ok(Frame::Console(b)) ==> (r matches Some(Ok(o)) && o@ == OutputView::Stdout(
            b@,
        )),
        chunk matches Ok(Frame::StdErr(b)) ==> (r matches Some(Ok(o)) && o@ == OutputView::Stderr(
            b@,
        )),
        chunk is Err <==> (r matches Some(item) && item is Err),
{
}

/// An output is that of its chunks one after the other: a chunk in front adds
/// what it becomes in front of the rest, and an error in front leaves nothing
/// of the rest.
pub proof fn law_output_keeps_its_order(
    front: Result<Frame, String>,
    rest: Vec<Result<Frame, String>>,
    all: Vec<Result<Frame, String>>,
    first: Option<Result<ExecOutput, ExecError>>,
    rest_out: Vec<Result<ExecOutput, ExecError>>,
    all_out: Vec<Result<ExecOutput, ExecError>>,
)
    requires
        all@ == seq![front] + rest@,
        call_ensures(map_frame, (front,), first),
        call_ensures(map_output, (rest,), rest_out),
        call_ensures(map_output, (all,), all_out),
    ensures
        rest@.len() == 0 ==> rest_out@.len() == 0,
        first is None ==> item_views(all_out@) == item_views(rest_out@),
        first matches Some(Ok(o)) ==> item_views(all_out@) == seq![
            Ok::<OutputView, ExecErrorView>(o@),
        ] + item_views(rest_out@),
        front is Err ==> all_out@.len() == 1 && all_out@[0] is Err,
{
    assert(all@[0] == front);
    assert(all@.skip(1) =~= rest@);
    assert(item_views(all_out@).len() == all_out@.len());
    assert(item_views(rest_out@).len() == rest_out@.len());
    if front is Err {
        assert(item_views(all_out@) =~= seq![item_view(first->0)]);
        assert(item_view(all_out@[0]) == item_views(all_out@)[0]);
    }
}

/// A command is looked at again exactly where the daemon says that it runs and
/// there is time left. Its code is known only from an answer that says it does
/// not run any more.
pub proof fn law_exit_is_waited_for(
    answer: Option<(Option<bool>, Option<i64>)>,
    time_is_up: bool,
    r: ExitPoll,
)
    requires
        call_ensures(poll_exit, (answer, time_is_up), r),
    ensures
        r is Again <==> !time_is_up && (answer matches Some(a) && a.0 == Some(true)),
        r matches ExitPoll::Ended(Some(code)) ==> answer matches Some(a) && a.0 != Some(true) && a.1
            == Some(code),
        answer matches Some(a) ==> a.0 != Some(true) ==> r == ExitPoll::Ended(a.1),
{
}

} // verus!
