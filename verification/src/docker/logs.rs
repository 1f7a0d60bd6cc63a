//! Lines that a container logs.
use vstd::prelude::*;
use crate::docker::exec::Frame;
use crate::foreign::{lossy_text, utf8_lossy};
use crate::text::{chars_of, opt_str, strs, trim, trimmed};

verus! {

/// A text without its line feeds.
pub open spec fn without_newlines(s: Seq<char>) -> Seq<char>
    decreases s.len(),
{
    if s.len() == 0 {
        seq![]
    } else if s.last() == '\n' {
        without_newlines(s.drop_last())
    } else {
        without_newlines(s.drop_last()).push(s.last())
    }
}

/// A text without its line feeds.
fn drop_newlines(s: &str) -> (r: String)
    ensures
        r@ == without_newlines(s@),
{
    let text = chars_of(s);
    let mut out = String::new();
    let mut i: usize = 0;
    assert(out@ =~= without_newlines(s@.take(0)));
    while i < text.len()
        invariant
            text@ == s@,
            i <= text.len(),
            out@ == without_newlines(s@.take(i as int)),
        decreases text.len() - i,
    {
        assert(s@.take(i + 1).drop_last() =~= s@.take(i as int));
        if text[i] != '\n' {
            out.push(text[i]);
        }
        i += 1;
    }
    assert(s@.take(s@.len() as int) =~= s@);
    out
}

/// The bytes of a frame, whichever it is.
pub open spec fn frame_bytes(frame: Frame) -> Seq<u8> {
    match frame {
        Frame::StdOut(b) => b@,
        Frame::StdErr(b) => b@,
        Frame::StdIn(b) => b@,
        Frame::Console(b) => b@,
    }
}

/// The text of a frame, whichever it is.
pub fn format_log_output(frame: &Frame) -> (r: String)
    ensures
        r@ == lossy_text(frame_bytes(*frame)),
{
    match frame {
        Frame::StdOut(b) => utf8_lossy(b.as_slice()),
        Frame::StdErr(b) => utf8_lossy(b.as_slice()),
        Frame::StdIn(b) => utf8_lossy(b.as_slice()),
        Frame::Console(b) => utf8_lossy(b.as_slice()),
    }
}

/// The line that a text becomes: without line feeds, and nothing where only
/// white space is left.
pub open spec fn log_line_of(text: Seq<char>) -> Option<Seq<char>> {
    let line = without_newlines(text);
    if trimmed(line).len() == 0 {
        None
    } else {
        Some(line)
    }
}

/// The line that a text becomes.
pub fn line_of_text(text: &str) -> (r: Option<String>)
    ensures
        opt_str(r) == log_line_of(text@),
{
    let line = drop_newlines(text);
    let inner = trim(line.as_str());
    if inner.as_str().is_empty() {
        None
    } else {
        Some(line)
    }
}

/// The line that a frame becomes.
pub fn process_log_chunk(chunk: &Frame) -> (r: Option<String>)
    ensures
        opt_str(r) == log_line_of(lossy_text(frame_bytes(*chunk))),
{
    let text = format_log_output(chunk);
    line_of_text(text.as_str())
}

/// The lines of a log: that of each piece, up to the first error.
pub open spec fn log_of(pieces: Seq<Option<Frame>>) -> Seq<Seq<char>>
    decreases pieces.len(),
{
    if pieces.len() == 0 {
        seq![]
    } else {
        match pieces[0] {
            None => seq![],
            Some(frame) => match log_line_of(lossy_text(frame_bytes(frame))) {
                Some(line) => seq![line] + log_of(pieces.skip(1)),
                None => log_of(pieces.skip(1)),
            },
        }
    }
}

/// The lines of a log. An error, which is no frame, ends it.
pub fn collect_log(pieces: &Vec<Option<Frame>>) -> (r: Vec<String>)
    ensures
        strs(r@) == log_of(pieces@),
{
    let mut out: Vec<String> = Vec::new();
    let mut i: usize = 0;
    assert(pieces@.skip(0) =~= pieces@);
    assert(strs(out@) + log_of(pieces@) =~= log_of(pieces@));
    while i < pieces.len()
        invariant
            i <= pieces.len(),
            log_of(pieces@) == strs(out@) + log_of(pieces@.skip(i as int)),
        decreases pieces.len() - i,
    {
        let ghost before = out@;
        assert(pieces@.skip(i as int)[0] == pieces@[i as int]);
        assert(pieces@.skip(i as int).skip(1) =~= pieces@.skip(i + 1));
        match &pieces[i] {
            None => {
                assert(strs(out@) + Seq::<Seq<char>>::empty() =~= strs(out@));
                return out;
            },
            Some(frame) => {
                if let Some(line) = process_log_chunk(frame) {
                    out.push(line);
                    assert(strs(out@) + log_of(pieces@.skip(i + 1)) =~= strs(before) + (seq![
                        line@,
                    ] + log_of(pieces@.skip(i + 1))));
                }
            },
        }
        i += 1;
    }
    assert(strs(out@) + Seq::<Seq<char>>::empty() =~= strs(out@));
    out
}

/// A line of a log is the text without its line feeds, all of them and nothing
/// else, and there is none exactly where only white space would be left.
pub proof fn law_line_drops_only_line_feeds(text: &str, r: Option<String>)
    requires
        call_ensures(line_of_text, (text,), r),
    ensures
        r matches Some(line) ==> !line@.contains('\n') && trimmed(line@).len() > 0 && (!text@.contains(
            '\n',
        ) ==> line@ == text@),
        !text@.contains('\n') ==> (r is None <==> trimmed(text@).len() == 0),
{
    lemma_no_newlines(text@);
}

/// What is left of a text holds no line feed, and all of a text without one.
proof fn lemma_no_newlines(s: Seq<char>)
    ensures
        !without_newlines(s).contains('\n'),
        !s.contains('\n') ==> without_newlines(s) == s,
    decreases s.len(),
{
    if s.len() > 0 {
        let init = s.drop_last();
        lemma_no_newlines(init);
        let rest = without_newlines(init);
        if s.last() != '\n' {
            let more = rest.push(s.last());
            if more.contains('\n') {
                let i = choose|i: int| 0 <= i < more.len() && more[i] == '\n';
                assert(rest[i] == '\n');
            }
        }
        if !s.contains('\n') {
            assert(s[s.len() - 1] == s.last());
            if init.contains('\n') {
                let i = choose|i: int| 0 <= i < init.len() && init[i] == '\n';
                assert(s[i] == '\n');
            }
            assert(init.push(s.last()) =~= s);
        }
    }
}

/// The frames of a log are read alike, whichever stream they come from.
pub proof fn law_streams_are_logged_alike(bytes: Vec<u8>, a: &Frame, b: &Frame, for_a: Option<
    String,
>, for_b: Option<String>)
    requires
        *a matches Frame::StdOut(x) ==> x@ == bytes@,
        *a matches Frame::StdErr(x) ==> x@ == bytes@,
        *a matches Frame::StdIn(x) ==> x@ == bytes@,
        *a matches Frame::Console(x) ==> x@ == bytes@,
        *b matches Frame::StdOut(x) ==> x@ == bytes@,
        *b matches Frame::StdErr(x) ==> x@ == bytes@,
        *b matches Frame::StdIn(x) ==> x@ == bytes@,
        *b matches Frame::Console(x) ==> x@ == bytes@,
        call_ensures(process_log_chunk, (a,), for_a),
        call_ensures(process_log_chunk, (b,), for_b),
    ensures
        opt_str(for_a) == opt_str(for_b),
{
}

/// A log is that of its pieces one after the other: a frame in front adds its
/// line, where it has one, in front of the rest, and an error in front leaves
/// nothing of the rest.
pub proof fn law_log_keeps_its_order(
    front: Frame,
    line: Option<String>,
    rest: &Vec<Option<Frame>>,
    all: &Vec<Option<Frame>>,
    broken: &Vec<Option<Frame>>,
    rest_log: Vec<String>,
    all_log: Vec<String>,
    broken_log: Vec<String>,
)
    requires
        all@ == seq![Some(front)] + rest@,
        broken@ == seq![None] + rest@,
        call_ensures(process_log_chunk, (&front,), line),
        call_ensures(collect_log, (rest,), rest_log),
        call_ensures(collect_log, (all,), all_log),
        call_ensures(collect_log, (broken,), broken_log),
    ensures
        rest@.len() == 0 ==> rest_log@.len() == 0,
        line matches Some(l) ==> strs(all_log@) == seq![l@] + strs(rest_log@),
        line is None ==> strs(all_log@) == strs(rest_log@),
        broken_log@.len() == 0,
{
    assert(all@[0] == Some(front));
    assert(all@.skip(1) =~= rest@);
    assert(broken@[0] is None);
    assert(strs(rest_log@).len() == rest_log@.len());
    assert(strs(broken_log@).len() == broken_log@.len());
}

} // verus!
