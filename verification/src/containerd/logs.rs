//! The log file of a container.
use vstd::prelude::*;
use crate::cloud_hypervisor::console_logs::{apply_tail, opt_view, tailed};
use crate::text::{cat3, contains, has, lines, lines_of, opt_str, str_pairs, strs, trim, trim_end, trimmed, trimmed_end};

verus! {

/// The log file of a container.
pub open spec fn log_file_text(id: Seq<char>) -> Seq<char> {
    "/var/log/ring/containerd/"@ + id + ".log"@
}

/// The log file of a container.
pub fn log_file(instance_id: &str) -> (r: String)
    ensures
        r@ == log_file_text(instance_id@),
{
    cat3("/var/log/ring/containerd/", instance_id, ".log")
}

/// The lines that are reported: without white space at their ends, and without
/// those that hold nothing else.
pub open spec fn kept_lines(list: Seq<Seq<char>>) -> Seq<Seq<char>>
    decreases list.len(),
{
    if list.len() == 0 {
        seq![]
    } else {
        let line = trimmed_end(list.last());
        if trimmed(line).len() == 0 {
            kept_lines(list.drop_last())
        } else {
            kept_lines(list.drop_last()).push(line)
        }
    }
}

/// A line as it is reported, where it is.
pub fn followed_line(line: &str) -> (r: Option<String>)
    ensures
        opt_str(r) == if trimmed(trimmed_end(line@)).len() == 0 {
            None
        } else {
            Some(trimmed_end(line@))
        },
{
    let cut = trim_end(line);
    let inner = trim(cut.as_str());
    if inner.as_str().is_empty() {
        None
    } else {
        Some(cut)
    }
}

/// The last lines of a container's log file.
pub fn read_logs(content: &str, tail: Option<&str>) -> (r: Vec<String>)
    ensures
        strs(r@) == tailed(kept_lines(lines(content@)), opt_view(tail)),
{
    let list = lines_of(content);
    let ghost all = lines(content@);
    let mut out: Vec<String> = Vec::new();
    let mut i: usize = 0;
    assert(strs(out@) =~= kept_lines(all.take(0)));
    while i < list.len()
        invariant
            i <= list.len(),
            all == strs(list@),
            strs(out@) == kept_lines(all.take(i as int)),
        decreases list.len() - i,
    {
        assert(all.take(i + 1).drop_last() =~= all.take(i as int));
        assert(all.take(i + 1).last() == list@[i as int]@);
        let ghost before = out@;
        if let Some(line) = followed_line(list[i].as_str()) {
            out.push(line);
            assert(strs(out@) =~= strs(before).push(line@));
        }
        i += 1;
    }
    assert(all.take(all.len() as int) =~= all);
    apply_tail(out, tail)
}

/// Whether an instance is meant by a filter: its id or its name holds it.
pub open spec fn holds_filter(instance: (Seq<char>, Seq<char>), filter: Seq<char>) -> bool {
    contains(instance.0, filter) || contains(instance.1, filter)
}

/// The instances that a filter means, in their order.
pub open spec fn log_sources(instances: Seq<(Seq<char>, Seq<char>)>, filter: Seq<char>) -> Seq<
    (Seq<char>, Seq<char>),
>
    decreases instances.len(),
{
    if instances.len() == 0 {
        seq![]
    } else if holds_filter(instances.last(), filter) {
        log_sources(instances.drop_last(), filter).push(instances.last())
    } else {
        log_sources(instances.drop_last(), filter)
    }
}

/// The instances whose logs are asked for: those whose id or name holds the
/// filter, or all of them where there is none.
pub fn select_log_sources(instances: Vec<(String, String)>, filter: Option<&str>) -> (r: Vec<
    (String, String),
>)
    ensures
        str_pairs(r@) == match filter {
            Some(f) => log_sources(str_pairs(instances@), f@),
            None => str_pairs(instances@),
        },
{
    let f = match filter {
        Some(f) => f,
        None => return instances,
    };
    let ghost all = str_pairs(instances@);
    let mut out: Vec<(String, String)> = Vec::new();
    let mut i: usize = 0;
    assert(str_pairs(out@) =~= log_sources(all.take(0), f@));
    while i < instances.len()
        invariant
            i <= instances.len(),
            all == str_pairs(instances@),
            str_pairs(out@) == log_sources(all.take(i as int), f@),
        decreases instances.len() - i,
    {
        assert(all.take(i + 1).drop_last() =~= all.take(i as int));
        assert(all.take(i + 1).last() == (instances@[i as int].0@, instances@[i as int].1@));
        let ghost before = out@;
        if has(instances[i].0.as_str(), f) || has(instances[i].1.as_str(), f) {
            let entry = (instances[i].0.clone(), instances[i].1.clone());
            out.push(entry);
            assert(str_pairs(out@) =~= str_pairs(before).push((entry.0@, entry.1@)));
        }
        i += 1;
    }
    assert(all.take(all.len() as int) =~= all);
    out
}

/// A line is reported exactly where it holds more than white space, without the
/// white space at its end.
pub proof fn law_blank_lines_are_dropped(line: &str, r: Option<String>)
    requires
        call_ensures(followed_line, (line,), r),
    ensures
        r is None <==> trimmed(trimmed_end(line@)).len() == 0,
        r matches Some(text) ==> text@ == trimmed_end(line@),
{
}

/// A filter keeps an instance exactly where its id or its name holds the filter,
/// in the order of the list; without one all are kept.
pub proof fn law_filter_keeps_what_it_names(
    instances: Vec<(String, String)>,
    more: Vec<(String, String)>,
    last: (String, String),
    filter: &str,
    kept: Vec<(String, String)>,
    kept_more: Vec<(String, String)>,
    unfiltered: Vec<(String, String)>,
)
    requires
        more@ == instances@.push(last),
        call_ensures(select_log_sources, (instances, Some(filter)), kept),
        call_ensures(select_log_sources, (more, Some(filter)), kept_more),
        call_ensures(select_log_sources, (instances, None), unfiltered),
    ensures
        str_pairs(unfiltered@) == str_pairs(instances@),
        instances@.len() == 0 ==> kept@.len() == 0,
        ({
            let named = contains(last.0@, filter@) || contains(last.1@, filter@);
            &&& named ==> str_pairs(kept_more@) == str_pairs(kept@).push((last.0@, last.1@))
            &&& !named ==> str_pairs(kept_more@) == str_pairs(kept@)
        }),
{
    assert(str_pairs(more@).drop_last() =~= str_pairs(instances@));
    assert(str_pairs(more@).last() == (last.0@, last.1@));
    assert(str_pairs(kept@).len() == kept@.len());
}

/// A log is read line by line: of a text that begins with a line the first kept line
/// is that one, unless it is blank, and the others are those of what follows. A tail
/// takes the last lines of what is read without one.
pub proof fn law_log_is_read_line_by_line(
    content: &str,
    line: &str,
    rest: &str,
    lines_all: Vec<String>,
    lines_rest: Vec<String>,
    kept: Option<String>,
    r: Vec<String>,
    others: Vec<String>,
    tail: Option<&str>,
    cut: Vec<String>,
    expected: Vec<String>,
)
    requires
        call_ensures(lines_of, (content,), lines_all),
        call_ensures(lines_of, (rest,), lines_rest),
        strs(lines_all@) == seq![line@] + strs(lines_rest@),
        call_ensures(followed_line, (line,), kept),
        call_ensures(read_logs, (content, None), r),
        call_ensures(read_logs, (rest, None), others),
        call_ensures(read_logs, (content, tail), cut),
        call_ensures(apply_tail, (r, tail), expected),
    ensures
        kept is None ==> strs(r@) == strs(others@),
        kept matches Some(text) ==> strs(r@) == seq![text@] + strs(others@),
        strs(cut@) == strs(expected@),
{
    lemma_kept_front(line@, strs(lines_rest@));
}

/// The lines that are kept, with one line more in front.
proof fn lemma_kept_front(line: Seq<char>, rest: Seq<Seq<char>>)
    ensures
        kept_lines(seq![line] + rest) == kept_lines(seq![line]) + kept_lines(rest),
        kept_lines(seq![line]) == if trimmed(trimmed_end(line)).len() == 0 {
            seq![]
        } else {
            seq![trimmed_end(line)]
        },
    decreases rest.len(),
{
    let one = seq![line];
    assert(one.drop_last() =~= Seq::<Seq<char>>::empty());
    assert(kept_lines(Seq::<Seq<char>>::empty()) =~= seq![]);
    assert(one.last() == line);
    assert(kept_lines(one) =~= if trimmed(trimmed_end(line)).len() == 0 {
        seq![]
    } else {
        seq![trimmed_end(line)]
    });
    if rest.len() == 0 {
        assert(one + rest =~= one);
        assert(kept_lines(one) + kept_lines(rest) =~= kept_lines(one));
    } else {
        lemma_kept_front(line, rest.drop_last());
        assert((one + rest).drop_last() =~= one + rest.drop_last());
        assert((one + rest).last() == rest.last());
        assert(kept_lines(one + rest) =~= kept_lines(one) + kept_lines(rest));
    }
}

} // verus!
