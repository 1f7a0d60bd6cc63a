//! Health checks of a container: which address it has, and commands that are
//! run in it.
use vstd::prelude::*;
use crate::foreign::{shell_split, split_command, split_error_text};
use crate::models::HealthCheckStatus;
use crate::steps::{Run, advanced, fresh, lemma_run_ends, lemma_run_keeps, run_on};
use crate::text::{cat2, cat3, decimal, decimal_u64, lines, lines_of, same, strs, trim, trimmed};

verus! {

/// The directory where the network plugin keeps one file per address, each with
/// the id of the container that has it.
pub const HOST_LOCAL_DIR: &'static str = "/var/lib/cni/networks/ring";

/// How long a command may run, in seconds.
pub const EXEC_WAIT_SECONDS: u64 = 30;

/// Whether some line of an address's file, without the white space around it,
/// is the id of this container.
pub open spec fn names_container(list: Seq<Seq<char>>, id: Seq<char>) -> bool {
    exists|i: int| 0 <= i < list.len() && trimmed(#[trigger] list[i]) == id
}

/// Whether an address belongs to a container, given the address's file.
pub fn address_belongs(contents: &str, instance_id: &str) -> (r: bool)
    ensures
        r == names_container(lines(contents@), instance_id@),
{
    let list = lines_of(contents);
    let ghost all = lines(contents@);
    let mut i: usize = 0;
    while i < list.len()
        invariant
            i <= list.len(),
            all == strs(list@),
            all == lines(contents@),
            forall|j: int| 0 <= j < i ==> trimmed(#[trigger] all[j]) != instance_id@,
        decreases list.len() - i,
    {
        assert(all[i as int] == list@[i as int]@);
        let line = trim(list[i].as_str());
        if same(line.as_str(), instance_id) {
            assert(trimmed(all[i as int]) == instance_id@);
            return true;
        }
        i += 1;
    }
    false
}

// ---------------------------------------------------------------------------
// Commands
// ---------------------------------------------------------------------------

/// The words of a command line, or the message where it has none or cannot be
/// split.
pub open spec fn command_words(split: Option<Seq<Seq<char>>>) -> Result<Seq<Seq<char>>, Seq<char>> {
    match split {
        Some(words) => if words.len() == 0 {
            Err("Empty command"@)
        } else {
            Ok(words)
        },
        None => Err("Invalid command syntax: missing closing quote"@),
    }
}

/// Check the words of a command line, or the text of the error where it could
/// not be split.
pub fn check_words(split: Result<Vec<String>, String>) -> (r: Result<Vec<String>, String>)
    ensures
        match split {
            Ok(words) => if words.len() == 0 {
                r matches Err(e) && e@ == "Empty command"@
            } else {
                r == Ok::<Vec<String>, String>(words)
            },
            Err(text) => r matches Err(e) && e@ == "Invalid command syntax: "@ + text@,
        },
{
    match split {
        Ok(words) => {
            if words.len() == 0 {
                Err("Empty command".to_owned())
            } else {
                Ok(words)
            }
        },
        Err(text) => Err(cat2("Invalid command syntax: ", text.as_str())),
    }
}

/// The words of a command line, as a shell splits it. The message of the error
/// is that of the failed check.
pub fn parse_command(command: &str) -> (r: Result<Vec<String>, String>)
    ensures
        match command_words(shell_split(command@)) {
            Ok(words) => r matches Ok(list) && strs(list@) == words,
            Err(text) => r matches Err(e) && e@ == text,
        },
{
    proof {
        reveal_strlit("Invalid command syntax: ");
        reveal_strlit("missing closing quote");
        reveal_strlit("Invalid command syntax: missing closing quote");
        assert("Invalid command syntax: "@ + "missing closing quote"@
            =~= "Invalid command syntax: missing closing quote"@);
    }
    match split_command(command) {
        Ok(words) => {
            assert(strs(words@).len() == words@.len());
            check_words(Ok(words))
        },
        Err(e) => {
            let text = split_error_text(&e);
            check_words(Err(text))
        },
    }
}

/// A step of a command check.
#[derive(Clone, Copy, Debug, PartialEq, Eq, Structural)]
pub enum ExecStep {
    /// See whether the container's task runs.
    CheckRunning,
    /// Register the process.
    CreateExec,
    StartExec,
    /// Wait until the process ends.
    Wait,
    /// Kill the process: it took too long.
    Kill,
    /// Remove the process.
    Cleanup,
    Done,
}

/// What came of a step.
#[derive(Clone, Copy, Debug, PartialEq, Eq, Structural)]
pub enum ExecStepResult {
    Success,
    Failure,
    TimedOut,
}

/// The step that follows.
pub open spec fn exec_next(step: ExecStep, result: ExecStepResult) -> ExecStep {
    match step {
        ExecStep::CheckRunning => if result is Success {
            ExecStep::CreateExec
        } else {
            ExecStep::Done
        },
        ExecStep::CreateExec => if result is Success {
            ExecStep::StartExec
        } else {
            ExecStep::Done
        },
        ExecStep::StartExec => if result is Success {
            ExecStep::Wait
        } else {
            ExecStep::Cleanup
        },
        ExecStep::Wait => if result is TimedOut {
            ExecStep::Kill
        } else {
            ExecStep::Cleanup
        },
        ExecStep::Kill => ExecStep::Cleanup,
        ExecStep::Cleanup => ExecStep::Done,
        ExecStep::Done => ExecStep::Done,
    }
}

/// The step that follows.
pub fn next_exec_step(step: ExecStep, result: ExecStepResult) -> (r: ExecStep)
    ensures
        r == exec_next(step, result),
{
    match step {
        ExecStep::CheckRunning => {
            if result == ExecStepResult::Success {
                ExecStep::CreateExec
            } else {
                ExecStep::Done
            }
        },
        ExecStep::CreateExec => {
            if result == ExecStepResult::Success {
                ExecStep::StartExec
            } else {
                ExecStep::Done
            }
        },
        ExecStep::StartExec => {
            if result == ExecStepResult::Success {
                ExecStep::Wait
            } else {
                ExecStep::Cleanup
            }
        },
        ExecStep::Wait => {
            if result == ExecStepResult::TimedOut {
                ExecStep::Kill
            } else {
                ExecStep::Cleanup
            }
        },
        ExecStep::Kill => ExecStep::Cleanup,
        ExecStep::Cleanup => ExecStep::Done,
        ExecStep::Done => ExecStep::Done,
    }
}

/// What a step of a command check found out.
#[derive(Debug)]
pub enum ExecFinding {
    /// The container's task does not run.
    NotRunning,
    CreateFailed(String),
    StartFailed(String),
    WaitFailed(String),
    TimedOut,
    /// The process ended with this code.
    Exited(u32),
}

/// The result of a command check.
pub open spec fn exec_answer(f: ExecFinding) -> (HealthCheckStatus, Seq<char>) {
    match f {
        ExecFinding::NotRunning => (HealthCheckStatus::Failed, "task is not running"@),
        ExecFinding::CreateFailed(e) => (
            HealthCheckStatus::Failed,
            "Failed to create exec: "@ + e@,
        ),
        ExecFinding::StartFailed(e) => (HealthCheckStatus::Failed, "Failed to start exec: "@ + e@),
        ExecFinding::WaitFailed(e) => (
            HealthCheckStatus::Failed,
            "Failed to wait for exec: "@ + e@,
        ),
        ExecFinding::TimedOut => (
            HealthCheckStatus::Failed,
            "Command probe timed out after "@ + decimal(30) + "s"@,
        ),
        ExecFinding::Exited(code) => if code == 0 {
            (HealthCheckStatus::Success, "Command exited 0"@)
        } else {
            (HealthCheckStatus::Failed, "Command exited "@ + decimal(code as nat))
        },
    }
}

/// The result of a command check: a success only where the process ended with
/// code zero.
pub fn command_check_result(finding: &ExecFinding) -> (r: (HealthCheckStatus, String))
    ensures
        (r.0, r.1@) == exec_answer(*finding),
{
    match finding {
        ExecFinding::NotRunning => (HealthCheckStatus::Failed, "task is not running".to_owned()),
        ExecFinding::CreateFailed(e) => (
            HealthCheckStatus::Failed,
            cat2("Failed to create exec: ", e.as_str()),
        ),
        ExecFinding::StartFailed(e) => (
            HealthCheckStatus::Failed,
            cat2("Failed to start exec: ", e.as_str()),
        ),
        ExecFinding::WaitFailed(e) => (
            HealthCheckStatus::Failed,
            cat2("Failed to wait for exec: ", e.as_str()),
        ),
        ExecFinding::TimedOut => {
            let limit = decimal_u64(EXEC_WAIT_SECONDS);
            (
                HealthCheckStatus::Failed,
                cat3("Command probe timed out after ", limit.as_str(), "s"),
            )
        },
        ExecFinding::Exited(code) => {
            if *code == 0 {
                (HealthCheckStatus::Success, "Command exited 0".to_owned())
            } else {
                let number = decimal_u64(*code as u64);
                (HealthCheckStatus::Failed, cat2("Command exited ", number.as_str()))
            }
        },
    }
}

/// The name of a command check's process, given its random suffix.
pub fn exec_name(suffix: &str) -> (r: String)
    ensures
        r@ == "ring-hc-"@ + suffix@,
{
    cat2("ring-hc-", suffix)
}

/// Whether a process was registered that has to be removed.
pub open spec fn is_registered(step: ExecStep) -> bool {
    step is StartExec || step is Wait || step is Kill || step is Cleanup
}

/// A process that was registered is removed, however the check goes; one that
/// takes too long is killed first; and the check comes to an end.
pub proof fn law_exec_is_cleaned_up(step: ExecStep, result: ExecStepResult)
    ensures
        is_registered(step) ==> is_registered(exec_next(step, result)) || step is Cleanup,
        is_registered(exec_next(step, result)) && !is_registered(step) ==> step is CreateExec
            && result is Success,
        step is Wait && result is TimedOut ==> exec_next(step, result) is Kill,
        !(step is Done) ==> exec_rank(exec_next(step, result)) < exec_rank(step),
{
}

/// How many steps a command check can still take.
pub open spec fn exec_rank(step: ExecStep) -> nat {
    match step {
        ExecStep::CheckRunning => 6,
        ExecStep::CreateExec => 5,
        ExecStep::StartExec => 4,
        ExecStep::Wait => 3,
        ExecStep::Kill => 2,
        ExecStep::Cleanup => 1,
        ExecStep::Done => 0,
    }
}

/// Whether a command check is over.
pub open spec fn exec_is_over(step: ExecStep) -> bool {
    step is Done
}

/// A command check from its beginning, after steps with these results.
pub open spec fn exec_run(outcomes: Seq<ExecStepResult>) -> Run<ExecStep, ExecStepResult> {
    run_on(
        |step: ExecStep, o: ExecStepResult| exec_next(step, o),
        |step: ExecStep| exec_is_over(step),
        fresh(ExecStep::CheckRunning),
        outcomes,
    )
}

/// What was done where a command check stands.
spec fn exec_history(run: Run<ExecStep, ExecStepResult>) -> bool {
    let ok = ExecStepResult::Success;
    &&& !(run.step is CheckRunning || run.step is Done) ==> run.saw(ExecStep::CheckRunning, ok)
    &&& run.step is StartExec || run.step is Wait || run.step is Kill || run.step is Cleanup
        ==> run.saw(ExecStep::CreateExec, ok)
    &&& run.step is Wait || run.step is Kill ==> run.saw(ExecStep::StartExec, ok)
    &&& run.step is Kill ==> run.saw(ExecStep::Wait, ExecStepResult::TimedOut)
    &&& forall|o: ExecStepResult| #[trigger]
        run.saw(ExecStep::CreateExec, o) ==> run.saw(ExecStep::CheckRunning, ok)
    &&& forall|o: ExecStepResult| #[trigger]
        run.saw(ExecStep::StartExec, o) ==> run.saw(ExecStep::CreateExec, ok)
    &&& forall|o: ExecStepResult| #[trigger]
        run.saw(ExecStep::Wait, o) ==> run.saw(ExecStep::StartExec, ok)
    &&& forall|o: ExecStepResult| #[trigger]
        run.saw(ExecStep::Kill, o) ==> run.saw(ExecStep::Wait, ExecStepResult::TimedOut)
    &&& forall|o: ExecStepResult| #[trigger]
        run.saw(ExecStep::Cleanup, o) ==> run.saw(ExecStep::CreateExec, ok)
    &&& run.saw(ExecStep::CheckRunning, ok) ==> !(run.step is CheckRunning) && (run.step is Done
        ==> exists|o: ExecStepResult| #[trigger] run.saw(ExecStep::CreateExec, o))
    &&& run.saw(ExecStep::CreateExec, ok) && run.step is Done ==> (exists|o: ExecStepResult|
        #[trigger] run.saw(ExecStep::StartExec, o)) && (exists|o: ExecStepResult| #[trigger]
        run.saw(ExecStep::Cleanup, o))
    &&& run.saw(ExecStep::StartExec, ok) && (run.step is Done || run.step is Cleanup)
        ==> exists|o: ExecStepResult| #[trigger] run.saw(ExecStep::Wait, o)
    &&& run.saw(ExecStep::Wait, ExecStepResult::TimedOut) && (run.step is Done || run.step
        is Cleanup) ==> exists|o: ExecStepResult| #[trigger] run.saw(ExecStep::Kill, o)
    &&& run.saw(ExecStep::CreateExec, ok) ==> !(run.step is CheckRunning || run.step is CreateExec)
    &&& run.saw(ExecStep::StartExec, ok) ==> run.step is Wait || run.step is Kill || run.step
        is Cleanup || run.step is Done
    &&& run.saw(ExecStep::Wait, ExecStepResult::TimedOut) ==> run.step is Kill || run.step
        is Cleanup || run.step is Done
    &&& run.step is Cleanup ==> exists|o: ExecStepResult| #[trigger] run.saw(
        ExecStep::StartExec,
        o,
    )
}

/// A step keeps the history.
proof fn lemma_exec_history(r: Run<ExecStep, ExecStepResult>, o: ExecStepResult, after: Run<ExecStep, ExecStepResult>)
    requires
        exec_history(r),
        !exec_is_over(r.step),
        after.step == exec_next(r.step, o),
        after.seen == r.seen.insert((r.step, o)),
    ensures
        exec_history(after),
{
    assert(forall|s: ExecStep, x: ExecStepResult| #[trigger]
        after.saw(s, x) <==> r.saw(s, x) || (s == r.step && x == o));
    assert(after.saw(r.step, o));
    if exists|x: ExecStepResult| #[trigger] r.saw(ExecStep::StartExec, x) {
        let x = choose|x: ExecStepResult| #[trigger] r.saw(ExecStep::StartExec, x);
        assert(after.saw(ExecStep::StartExec, x));
    }
    if exists|x: ExecStepResult| #[trigger] r.saw(ExecStep::Wait, x) {
        let x = choose|x: ExecStepResult| #[trigger] r.saw(ExecStep::Wait, x);
        assert(after.saw(ExecStep::Wait, x));
    }
    if exists|x: ExecStepResult| #[trigger] r.saw(ExecStep::Kill, x) {
        let x = choose|x: ExecStepResult| #[trigger] r.saw(ExecStep::Kill, x);
        assert(after.saw(ExecStep::Kill, x));
    }
    if exists|x: ExecStepResult| #[trigger] r.saw(ExecStep::CreateExec, x) {
        let x = choose|x: ExecStepResult| #[trigger] r.saw(ExecStep::CreateExec, x);
        assert(after.saw(ExecStep::CreateExec, x));
    }
}

/// However its steps turn out, a command check runs the command where the task
/// runs, waits for every process that it started, kills exactly those that took
/// too long, and removes every process that it registered, before it is over.
pub proof fn law_command_is_run_once_and_removed(outcomes: Seq<ExecStepResult>)
    ensures
        ({
            let run = exec_run(outcomes);
            let ok = ExecStepResult::Success;
            &&& forall|o: ExecStepResult| #[trigger]
                run.saw(ExecStep::CreateExec, o) ==> run.saw(ExecStep::CheckRunning, ok)
            &&& forall|o: ExecStepResult| #[trigger]
                run.saw(ExecStep::StartExec, o) ==> run.saw(ExecStep::CreateExec, ok)
            &&& forall|o: ExecStepResult| #[trigger]
                run.saw(ExecStep::Wait, o) ==> run.saw(ExecStep::StartExec, ok)
            &&& forall|o: ExecStepResult| #[trigger]
                run.saw(ExecStep::Kill, o) ==> run.saw(ExecStep::Wait, ExecStepResult::TimedOut)
            &&& outcomes.len() >= 6 ==> run.step is Done
            &&& run.step is Done && run.saw(ExecStep::CheckRunning, ok) ==> exists|
                o: ExecStepResult,
            | #[trigger]
                run.saw(ExecStep::CreateExec, o)
            &&& run.step is Done && run.saw(ExecStep::CreateExec, ok) ==> (exists|
                o: ExecStepResult,
            | #[trigger]
                run.saw(ExecStep::StartExec, o)) && (exists|o: ExecStepResult| #[trigger]
                run.saw(ExecStep::Cleanup, o))
            &&& run.step is Done && run.saw(ExecStep::StartExec, ok) ==> exists|o: ExecStepResult|
                #[trigger] run.saw(ExecStep::Wait, o)
            &&& run.step is Done && run.saw(ExecStep::Wait, ExecStepResult::TimedOut) ==> exists|
                o: ExecStepResult,
            | #[trigger]
                run.saw(ExecStep::Kill, o)
        }),
{
    let next = |step: ExecStep, o: ExecStepResult| exec_next(step, o);
    let over = |step: ExecStep| exec_is_over(step);
    let inv = |run: Run<ExecStep, ExecStepResult>| exec_history(run);
    let first = fresh::<ExecStep, ExecStepResult>(ExecStep::CheckRunning);
    assert forall|r: Run<ExecStep, ExecStepResult>, o: ExecStepResult| inv(r) && !over(r.step) implies inv(
        #[trigger] advanced(next, r, o),
    ) by {
        lemma_exec_history(r, o, advanced(next, r, o));
    }
    lemma_run_keeps(next, over, inv, first, outcomes);
    if outcomes.len() >= 6 {
        let rank = |step: ExecStep| exec_rank(step) as int;
        assert forall|s: ExecStep, o: ExecStepResult| !over(s) implies 0 <= rank(#[trigger] next(s, o))
            < rank(s) by {
            law_exec_is_cleaned_up(s, o);
        }
        lemma_run_ends(next, over, rank, first, outcomes);
    }
}

/// A command check succeeds exactly where the command ended with code zero; what
/// went wrong otherwise is said at the end of the message.
pub proof fn law_command_check_needs_code_zero(
    finding: &ExecFinding,
    r: (HealthCheckStatus, String),
)
    requires
        call_ensures(command_check_result, (finding,), r),
    ensures
        r.0 == HealthCheckStatus::Success <==> (*finding matches ExecFinding::Exited(code) && code
            == 0),
        r.0 != HealthCheckStatus::Success ==> r.0 == HealthCheckStatus::Failed,
        *finding matches ExecFinding::CreateFailed(e) ==> e@.is_suffix_of(r.1@),
        *finding matches ExecFinding::StartFailed(e) ==> e@.is_suffix_of(r.1@),
        *finding matches ExecFinding::WaitFailed(e) ==> e@.is_suffix_of(r.1@),
        *finding matches ExecFinding::Exited(code) ==> code > 0 ==> decimal(
            code as nat,
        ).is_suffix_of(r.1@),
{
    match *finding {
        ExecFinding::CreateFailed(e) | ExecFinding::StartFailed(e) | ExecFinding::WaitFailed(
            e,
        ) => {
            assert(r.1@.subrange(r.1@.len() - e@.len(), r.1@.len() as int) =~= e@);
        },
        ExecFinding::Exited(code) => {
            if code > 0 {
                let number = decimal(code as nat);
                assert(r.1@.subrange(r.1@.len() - number.len(), r.1@.len() as int) =~= number);
            }
        },
        _ => {},
    }
}

/// A command is run exactly where it has a word, and with its words as they are.
pub proof fn law_command_needs_a_word(
    words: Vec<String>,
    text: String,
    r: Result<Vec<String>, String>,
    unread: Result<Vec<String>, String>,
)
    requires
        call_ensures(check_words, (Ok(words),), r),
        call_ensures(check_words, (Err(text),), unread),
    ensures
        r is Ok <==> words@.len() > 0,
        r matches Ok(list) ==> list == words,
        unread is Err,
        unread matches Err(e) ==> text@.is_suffix_of(e@),
{
    let e = unread->Err_0;
    assert(e@.subrange(e@.len() - text@.len(), e@.len() as int) =~= text@);
}

/// An address belongs to a container exactly where some line of its file is the
/// container's id, white space aside, and not where a line only holds it.
pub proof fn law_address_names_its_container(contents: &str, instance_id: &str, r: bool)
    requires
        call_ensures(address_belongs, (contents, instance_id), r),
    ensures
        r <==> exists|i: int|
            0 <= i < lines(contents@).len() && trimmed(#[trigger] lines(contents@)[i])
                == instance_id@,
{
}

} // verus!
