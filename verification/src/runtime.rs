//! The runtime behind one deployment.
use vstd::prelude::*;
use crate::lifecycle_trait::{Log, LogView, date_in, level_or, marked_level};
use crate::text::{contains, opt_str};

verus! {

/// Entry point to the runtime of a deployment.
#[derive(Debug)]
pub struct Runtime {}

/// The level of a line: the one that it is marked with, or `info`.
pub fn classify_log(log: &str) -> (r: String)
    ensures
        r@ == marked_level(log@, "info"@),
{
    level_or(log, "info")
}

/// The first date and time of day, `0000/00/00 00:00:00` in form, in a line.
pub fn extract_date(log: &str) -> (r: Option<String>)
    ensures
        opt_str(r) == date_in(log@),
        r matches Some(date) ==> date@.len() > 0 && contains(log@, date@),
{
    crate::lifecycle_trait::extract_date(log)
}

/// One line as it is reported, with its level and its date.
pub fn to_log(instance: &str, message: &str) -> (r: Log)
    ensures
        r@ == (LogView {
            instance: instance@,
            message: message@,
            level: marked_level(message@, "info"@),
            timestamp: date_in(message@),
        }),
{
    Log {
        instance: instance.to_owned(),
        level: classify_log(message),
        timestamp: extract_date(message),
        message: message.to_owned(),
    }
}

/// A line has the level that it is marked with, here as elsewhere; one without a
/// marker is of level `info` here. Its text and its date are its own.
pub proof fn law_unmarked_line_is_information(
    instance: &str,
    message: &str,
    marked: String,
    date: Option<String>,
    r: Log,
)
    requires
        call_ensures(level_or, (message, "info"), marked),
        call_ensures(crate::lifecycle_trait::extract_date, (message,), date),
        call_ensures(to_log, (instance, message), r),
    ensures
        r.level@ == marked@,
        r.instance@ == instance@,
        r.message@ == message@,
        opt_str(r.timestamp) == opt_str(date),
{
    assert(r@.level == r.level@);
    assert(r@.instance == r.instance@);
    assert(r@.message == r.message@);
    assert(r@.timestamp == opt_str(r.timestamp));
}

} // verus!
