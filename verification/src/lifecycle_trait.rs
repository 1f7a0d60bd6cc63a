//! What every runtime does with the lines that its instances log.
use vstd::prelude::*;
use vstd::utf8::is_ascii_chars;
use crate::cloud_hypervisor::console_logs::opt_view;
use crate::entries::copy_strings;
use crate::foreign::{first_timestamp, regex_find, regex_first_match, timestamp_at, timestamp_pattern};
use crate::models::HealthCheckStatus;
use crate::text::{contains, has, opt_str, same, str_pairs, strs};

verus! {

/// One line that an instance logged.
#[derive(Debug)]
pub struct Log {
    pub instance: String,
    pub message: String,
    pub level: String,
    pub timestamp: Option<String>,
}

/// A [`Log`] by its contents.
pub struct LogView {
    pub instance: Seq<char>,
    pub message: Seq<char>,
    pub level: Seq<char>,
    pub timestamp: Option<Seq<char>>,
}

impl View for Log {
    type V = LogView;

    open spec fn view(&self) -> LogView {
        LogView {
            instance: self.instance@,
            message: self.message@,
            level: self.level@,
            timestamp: opt_str(self.timestamp),
        }
    }
}

/// The level that the markers in a line name, or `fallback` where it has none.
pub open spec fn marked_level(log: Seq<char>, fallback: Seq<char>) -> Seq<char> {
    if contains(log, "[error]"@) {
        "error"@
    } else if contains(log, "[warning]"@) {
        "warning"@
    } else if contains(log, "[notice]"@) || contains(log, "[info]"@) || contains(log, "info:"@) {
        "info"@
    } else {
        fallback
    }
}

/// The level that the markers in a line name, or `fallback` where it has none.
pub fn level_or(log: &str, fallback: &str) -> (r: String)
    ensures
        r@ == marked_level(log@, fallback@),
{
    if has(log, "[error]") {
        "error".to_owned()
    } else if has(log, "[warning]") {
        "warning".to_owned()
    } else if has(log, "[notice]") || has(log, "[info]") || has(log, "info:") {
        "info".to_owned()
    } else {
        fallback.to_owned()
    }
}

/// The level of a line: the one that it is marked with, or `unknown`.
pub fn classify_log(log: &str) -> (r: String)
    ensures
        r@ == marked_level(log@, "unknown"@),
{
    level_or(log, "unknown")
}

/// A date that was found, unless it is empty.
pub open spec fn non_empty(found: Option<Seq<char>>) -> Option<Seq<char>> {
    match found {
        Some(s) => if s.len() == 0 {
            None
        } else {
            Some(s)
        },
        None => None,
    }
}

/// A date that was found, unless it is empty.
pub fn keep_non_empty(found: Option<String>) -> (r: Option<String>)
    ensures
        opt_str(r) == non_empty(opt_str(found)),
{
    match found {
        Some(s) => if s.as_str().is_empty() {
            None
        } else {
            Some(s)
        },
        None => None,
    }
}

/// The first date and time of day that a line holds. Where the line is not ASCII
/// the pattern says what that is.
pub open spec fn date_in(log: Seq<char>) -> Option<Seq<char>> {
    if is_ascii_chars(log) {
        first_timestamp(log, 0)
    } else {
        non_empty(regex_first_match(timestamp_pattern(), log))
    }
}

/// The first date and time of day, `0000/00/00 00:00:00` in form, in a line.
pub fn extract_date(log: &str) -> (r: Option<String>)
    ensures
        opt_str(r) == date_in(log@),
        r matches Some(date) ==> date@.len() > 0 && contains(log@, date@),
{
    let found = regex_find("\\d{4}/\\d{2}/\\d{2} \\d{2}:\\d{2}:\\d{2}", log);
    proof {
        lemma_timestamp_len(log@, 0);
    }
    keep_non_empty(found)
}

/// A date and time of day has 19 characters.
proof fn lemma_timestamp_len(s: Seq<char>, i: int)
    ensures
        first_timestamp(s, i) matches Some(t) ==> t.len() == 19,
    decreases s.len() - i,
{
    if 0 <= i && i + 19 <= s.len() && !timestamp_at(s, i) {
        lemma_timestamp_len(s, i + 1);
    }
}

/// One line as it is reported.
pub open spec fn log_line(instance: Seq<char>, message: Seq<char>) -> LogView {
    LogView {
        instance,
        message,
        level: marked_level(message, "unknown"@),
        timestamp: date_in(message),
    }
}

/// One line as it is reported, with its level and its date.
pub fn to_log(instance: &str, message: &str) -> (r: Log)
    ensures
        r@ == log_line(instance@, message@),
{
    Log {
        instance: instance.to_owned(),
        level: classify_log(message),
        timestamp: extract_date(message),
        message: message.to_owned(),
    }
}

/// The contents of a list of lines.
pub open spec fn logs(list: Seq<Log>) -> Seq<LogView> {
    list.map_values(|l: Log| l@)
}

/// The lines of one instance as they are reported.
pub open spec fn log_lines(instance: Seq<char>, messages: Seq<Seq<char>>) -> Seq<LogView> {
    messages.map_values(|m: Seq<char>| log_line(instance, m))
}

/// Append the lines of one instance to what is reported.
pub fn append_logs(out: &mut Vec<Log>, instance: &str, messages: &Vec<String>)
    ensures
        logs(final(out)@) == logs(old(out)@) + log_lines(instance@, strs(messages@)),
{
    let ghost before = out@;
    let mut i: usize = 0;
    assert(logs(before) + log_lines(instance@, strs(messages@.take(0))) =~= logs(before));
    while i < messages.len()
        invariant
            i <= messages.len(),
            logs(out@) == logs(before) + log_lines(instance@, strs(messages@.take(i as int))),
        decreases messages.len() - i,
    {
        let ghost prior = out@;
        let line = to_log(instance, messages[i].as_str());
        out.push(line);
        assert(logs(out@) =~= logs(prior).push(line@));
        assert(log_lines(instance@, strs(messages@.take(i + 1))) =~= log_lines(
            instance@,
            strs(messages@.take(i as int)),
        ).push(line@));
        assert(logs(out@) =~= logs(before) + log_lines(instance@, strs(messages@.take(i + 1))));
        i += 1;
    }
    assert(messages@.take(messages.len() as int) =~= messages@);
}

/// The lines of some instances as they are reported, instance after instance.
pub open spec fn gathered(batches: Seq<(String, Vec<String>)>) -> Seq<LogView>
    decreases batches.len(),
{
    if batches.len() == 0 {
        seq![]
    } else {
        gathered(batches.drop_last()) + log_lines(batches.last().0@, strs(batches.last().1@))
    }
}

/// The lines of some instances as they are reported, instance after instance.
pub fn gather_logs(batches: &Vec<(String, Vec<String>)>) -> (r: Vec<Log>)
    ensures
        logs(r@) == gathered(batches@),
{
    let mut out: Vec<Log> = Vec::new();
    let mut i: usize = 0;
    assert(logs(out@) =~= gathered(batches@.take(0)));
    while i < batches.len()
        invariant
            i <= batches.len(),
            logs(out@) == gathered(batches@.take(i as int)),
        decreases batches.len() - i,
    {
        assert(batches@.take(i + 1).drop_last() =~= batches@.take(i as int));
        append_logs(&mut out, batches[i].0.as_str(), &batches[i].1);
        i += 1;
    }
    assert(batches@.take(batches.len() as int) =~= batches@);
    out
}

/// The ids in a list that are this one.
pub open spec fn only(ids: Seq<Seq<char>>, wanted: Seq<char>) -> Seq<Seq<char>> {
    ids.filter(|id: Seq<char>| id == wanted)
}

/// The instances that a request names: that one, where it is there, or all of
/// them where none is named.
pub open spec fn named_instances(ids: Seq<Seq<char>>, wanted: Option<Seq<char>>) -> Seq<Seq<char>> {
    match wanted {
        Some(w) => only(ids, w),
        None => ids,
    }
}

/// The instances that a request names.
pub fn select_instances(ids: &Vec<String>, wanted: Option<&str>) -> (r: Vec<String>)
    ensures
        strs(r@) == named_instances(strs(ids@), opt_view(wanted)),
{
    let want = match wanted {
        Some(w) => w,
        None => return copy_strings(ids),
    };
    let ghost all = strs(ids@);
    let mut out: Vec<String> = Vec::new();
    let mut i: usize = 0;
    proof {
        reveal(Seq::filter);
    }
    assert(strs(out@) =~= only(all.take(0), want@));
    while i < ids.len()
        invariant
            i <= ids.len(),
            all == strs(ids@),
            strs(out@) == only(all.take(i as int), want@),
        decreases ids.len() - i,
    {
        proof {
            reveal(Seq::filter);
        }
        assert(all.take(i + 1).drop_last() =~= all.take(i as int));
        assert(all.take(i + 1).last() == ids@[i as int]@);
        let ghost before = out@;
        if same(ids[i].as_str(), want) {
            out.push(ids[i].clone());
            assert(strs(out@) =~= strs(before).push(want@));
        }
        i += 1;
    }
    assert(all.take(all.len() as int) =~= all);
    out
}

/// Instances under their own ids, where a runtime gives them no other name.
pub fn with_own_names(ids: &Vec<String>) -> (r: Vec<(String, String)>)
    ensures
        str_pairs(r@) == strs(ids@).map_values(|id: Seq<char>| (id, id)),
{
    let mut out: Vec<(String, String)> = Vec::new();
    let mut i: usize = 0;
    while i < ids.len()
        invariant
            i <= ids.len(),
            out.len() == i,
            forall|j: int|
                0 <= j < i ==> (#[trigger] out@[j]).0@ == ids@[j]@ && out@[j].1@ == ids@[j]@,
        decreases ids.len() - i,
    {
        out.push((ids[i].clone(), ids[i].clone()));
        i += 1;
    }
    assert(str_pairs(out@) =~= strs(ids@).map_values(|id: Seq<char>| (id, id)));
    out
}

/// The answer of a runtime that has no health checks.
pub fn health_checks_not_supported() -> (r: (HealthCheckStatus, Option<String>))
    ensures
        r.0 == HealthCheckStatus::Failed,
        opt_str(r.1) == Some("health checks not supported on this runtime"@),
{
    (
        HealthCheckStatus::Failed,
        Some("health checks not supported on this runtime".to_owned()),
    )
}

// ---------------------------------------------------------------------------
// Laws
// ---------------------------------------------------------------------------

/// The gravest marker of a line names its level; a line with no marker has the
/// level that is handed in.
pub proof fn law_gravest_marker_names_the_level(log: &str, fallback: &str, r: String)
    requires
        call_ensures(level_or, (log, fallback), r),
    ensures
        ({
            let error = contains(log@, "[error]"@);
            let warning = contains(log@, "[warning]"@);
            let info = contains(log@, "[notice]"@) || contains(log@, "[info]"@) || contains(
                log@,
                "info:"@,
            );
            &&& error ==> r@ == "error"@
            &&& !error && warning ==> r@ == "warning"@
            &&& !error && !warning && info ==> r@ == "info"@
            &&& !error && !warning && !info ==> r@ == fallback@
        }),
{
}

/// A line is reported with its own text and under its instance, with the level and
/// the date that it is read to have; a line without a marker is of level `unknown`.
pub proof fn law_line_is_reported_whole(
    instance: &str,
    message: &str,
    r: Log,
    level: String,
    marked: String,
    date: Option<String>,
)
    requires
        call_ensures(to_log, (instance, message), r),
        call_ensures(classify_log, (message,), level),
        call_ensures(level_or, (message, "unknown"), marked),
        call_ensures(extract_date, (message,), date),
    ensures
        r.instance@ == instance@,
        r.message@ == message@,
        r.level@ == level@,
        level@ == marked@,
        opt_str(r.timestamp) == opt_str(date),
        date matches Some(d) ==> d@.len() > 0 && contains(message@, d@),
{
    assert(r@ == log_line(instance@, message@));
}

/// In a line of ASCII the date is what stands where the first date and time of day
/// stand: 19 characters, and nothing in that form begins before it. A line without
/// any has no date.
pub proof fn law_first_date_is_taken(log: &str, at: int, r: Option<String>)
    requires
        is_ascii_chars(log@),
        call_ensures(extract_date, (log,), r),
        forall|j: int| 0 <= j < at ==> !#[trigger] timestamp_at(log@, j),
    ensures
        timestamp_at(log@, at) ==> opt_str(r) == Some(log@.subrange(at, at + 19)),
        at + 19 > log@.len() ==> r is None,
{
    if timestamp_at(log@, at) || at + 19 > log@.len() {
        lemma_first_timestamp(log@, 0, at);
    }
}

/// The search passes over every place where no date stands.
proof fn lemma_first_timestamp(s: Seq<char>, i: int, at: int)
    requires
        0 <= i,
        timestamp_at(s, at) || at + 19 > s.len(),
        forall|j: int| i <= j < at ==> !#[trigger] timestamp_at(s, j),
    ensures
        i <= at && timestamp_at(s, at) ==> first_timestamp(s, i) == Some(s.subrange(at, at + 19)),
        at + 19 > s.len() ==> first_timestamp(s, i) is None,
    decreases s.len() - i,
{
    if i + 19 <= s.len() && !timestamp_at(s, i) {
        lemma_first_timestamp(s, i + 1, at);
    }
}

/// The lines of a further instance come behind those of the others, and each
/// instance's lines in their order: one more line is the last.
pub proof fn law_logs_are_gathered_in_order(
    batches: &Vec<(String, Vec<String>)>,
    more: &Vec<(String, Vec<String>)>,
    last: (String, Vec<String>),
    longer: &Vec<(String, Vec<String>)>,
    long_last: (String, Vec<String>),
    line: String,
    r: Vec<Log>,
    after: Vec<Log>,
    long: Vec<Log>,
)
    requires
        more@ == batches@.push(last),
        longer@ == batches@.push(long_last),
        long_last.0@ == last.0@,
        long_last.1@ == last.1@.push(line),
        call_ensures(gather_logs, (batches,), r),
        call_ensures(gather_logs, (more,), after),
        call_ensures(gather_logs, (longer,), long),
    ensures
        batches@.len() == 0 ==> r@.len() == 0,
        after@.len() == r@.len() + last.1@.len(),
        logs(after@).take(r@.len() as int) == logs(r@),
        long@.len() == after@.len() + 1,
        logs(long@).drop_last() == logs(after@),
        long@.last().message@ == line@,
        long@.last().instance@ == last.0@,
{
    assert(more@.drop_last() =~= batches@);
    assert(longer@.drop_last() =~= batches@);
    assert(logs(r@).len() == r@.len());
    assert(logs(after@).len() == after@.len());
    assert(logs(long@).len() == long@.len());
    assert(strs(last.1@).len() == last.1@.len());
    assert(logs(after@).take(r@.len() as int) =~= logs(r@));
    let a = log_lines(last.0@, strs(last.1@));
    let b = log_lines(last.0@, strs(long_last.1@));
    assert(b =~= a.push(log_line(last.0@, line@)));
    assert(logs(long@).drop_last() =~= logs(after@));
    assert(logs(long@).last() == long@.last()@);
}

/// A request that names no instance takes them all, in their order; one that names
/// an instance takes exactly those with that id: one more of them is added, and
/// any other id is passed over.
pub proof fn law_named_instance_is_selected(
    ids: &Vec<String>,
    more: &Vec<String>,
    last: String,
    wanted: Option<&str>,
    r: Vec<String>,
    after: Vec<String>,
)
    requires
        more@ == ids@.push(last),
        call_ensures(select_instances, (ids, wanted), r),
        call_ensures(select_instances, (more, wanted), after),
    ensures
        ids@.len() == 0 ==> r@.len() == 0,
        wanted is None || (wanted matches Some(w) && w@ == last@) ==> strs(after@) == strs(
            r@,
        ).push(last@),
        wanted matches Some(w) && w@ != last@ ==> strs(after@) == strs(r@),
{
    reveal(Seq::filter);
    let a = strs(ids@);
    let b = strs(more@);
    assert(b =~= a.push(last@));
    assert(b.drop_last() =~= a);
    assert(b.last() == last@);
    assert(strs(r@).len() == r@.len());
    if wanted is None {
        assert(strs(after@) =~= strs(r@).push(last@));
    }
}

/// Instances without names of their own are listed one for one under their ids.
pub proof fn law_instances_are_named_after_themselves(
    ids: &Vec<String>,
    i: int,
    r: Vec<(String, String)>,
)
    requires
        0 <= i < ids@.len(),
        call_ensures(with_own_names, (ids,), r),
    ensures
        r@.len() == ids@.len(),
        r@[i].0@ == ids@[i]@,
        r@[i].1@ == ids@[i]@,
{
    let p = str_pairs(r@);
    assert(p.len() == r@.len());
    assert(p[i] == (r@[i].0@, r@[i].1@));
    assert(strs(ids@)[i] == ids@[i]@);
}

} // verus!
