//! The outside functions that the library calls, each behind a function whose
//! contract says what is relied upon.
use vstd::prelude::*;
use vstd::utf8::{decode_utf8, is_ascii_chars, valid_utf8};
use crate::cloud_hypervisor::cloud_init::base64_text;
use crate::entries::entry_map;
use crate::models::distinct_names;
use crate::text::{ascii_lowered, contains, digit_char, is_digit, last_pos, opt_str, strs};
use crate::wire::{Wire, field_key, opt_bytes, plain_skipped, varint};

verus! {

/// `rand::Rng::random` on the thread's generator: some 32-bit number. Nothing
/// is claimed of which one.
#[verifier::external_body]
pub(crate) fn random_u32() -> u32 {
    rand::Rng::random::<u32>(&mut rand::rng())
}

/// `sysinfo::System::available_memory` on a system that was just looked at: the
/// memory that the host could hand out, in bytes; `None` where the host cannot
/// be looked at. Nothing is claimed of how much it is.
#[verifier::external_body]
pub(crate) fn available_memory() -> Option<u64> {
    let mut system = sysinfo::System::new().ok()?;
    system.refresh_memory();
    Some(system.available_memory())
}

/// The hash of a text by a `std::hash::DefaultHasher` that was made by default.
/// All hashers that are made so are the same.
pub uninterp spec fn default_hash(content: Seq<char>) -> u64;

/// `std::hash::BuildHasher::hash_one` with the default hasher: the hash of a
/// text, which depends on the text alone. Which number it is, and that
/// different texts have different ones, is not claimed.
#[verifier::external_body]
pub(crate) fn content_hash(content: &str) -> (r: u64)
    ensures
        r == default_hash(content@),
{
    let hasher = std::hash::BuildHasherDefault::<std::hash::DefaultHasher>::default();
    std::hash::BuildHasher::hash_one(&hasher, content)
}

/// What `str::to_lowercase` makes of a text that is not ASCII: the Unicode lower
/// case of every character, which may be longer than the text.
pub uninterp spec fn unicode_lowered(s: Seq<char>) -> Seq<char>;

/// A text in lower case.
pub open spec fn lower_case(s: Seq<char>) -> Seq<char> {
    if is_ascii_chars(s) {
        ascii_lowered(s)
    } else {
        unicode_lowered(s)
    }
}

/// `str::to_lowercase`: the text in Unicode lower case. On ASCII text that is
/// the ASCII lower case of every character.
#[verifier::external_body]
pub(crate) fn unicode_lowercase(s: &str) -> (r: String)
    ensures
        r@ == lower_case(s@),
        !is_ascii_chars(s@) ==> r@ == unicode_lowered(s@),
{
    s.to_lowercase()
}

/// What `regex::Regex::find` finds first in a text: the text of the match. A
/// pattern that is no regular expression finds nothing.
pub uninterp spec fn regex_first_match(pattern: Seq<char>, text: Seq<char>) -> Option<Seq<char>>;

/// The pattern of a date and a time of day.
pub open spec fn timestamp_pattern() -> Seq<char> {
    "\\d{4}/\\d{2}/\\d{2} \\d{2}:\\d{2}:\\d{2}"@
}

/// Whether a date and a time of day, `0000/00/00 00:00:00` in form, stand in
/// `s` from position `i` on.
pub open spec fn timestamp_at(s: Seq<char>, i: int) -> bool {
    &&& 0 <= i && i + 19 <= s.len()
    &&& s[i + 4] == '/' && s[i + 7] == '/' && s[i + 10] == ' ' && s[i + 13] == ':' && s[i + 16] == ':'
    &&& forall|k: int|
        0 <= k < 19 && k != 4 && k != 7 && k != 10 && k != 13 && k != 16 ==> is_digit(
            #[trigger] s[i + k],
        )
}

/// The first position from `i` on where a date and a time of day stand.
pub open spec fn first_timestamp(s: Seq<char>, i: int) -> Option<Seq<char>>
    decreases s.len() - i,
{
    if i < 0 || i + 19 > s.len() {
        None
    } else if timestamp_at(s, i) {
        Some(s.subrange(i, i + 19))
    } else {
        first_timestamp(s, i + 1)
    }
}

/// `regex::Regex::new` and `regex::Regex::find`: the text of the leftmost match
/// of a pattern, which is a part of the text. For the pattern of a date and a
/// time of day, on ASCII text, it is the first such date and time; on other
/// text the pattern's digits are Unicode's decimal digits, and which text is
/// found is not stated.
#[verifier::external_body]
pub(crate) fn regex_find(pattern: &str, text: &str) -> (r: Option<String>)
    ensures
        opt_str(r) == regex_first_match(pattern@, text@),
        r matches Some(m) ==> contains(text@, m@),
        pattern@ == timestamp_pattern() && is_ascii_chars(text@) ==> opt_str(r) == first_timestamp(
            text@,
            0,
        ),
{
    let re = regex::Regex::new(pattern).ok()?;
    re.find(text).map(|m| m.as_str().to_string())
}

/// What `shell_words::split` makes of a command line: its words, or `None`
/// where a quote is not closed.
pub uninterp spec fn shell_split(line: Seq<char>) -> Option<Seq<Seq<char>>>;

/// `shell_words::split`: the words of a command line, quotes removed as a shell
/// does. The one error is a quote that is not closed.
#[verifier::external_body]
pub(crate) fn split_command(line: &str) -> (r: Result<Vec<String>, shell_words::ParseError>)
    ensures
        match shell_split(line@) {
            Some(words) => r matches Ok(list) && strs(list@) == words,
            None => r is Err,
        },
{
    shell_words::split(line)
}

/// The error of `shell_words::split`.
#[verifier::external_type_specification]
#[verifier::external_body]
pub struct ExParseError(shell_words::ParseError);

/// The text of the error of `shell_words::split`: its one text.
#[verifier::external_body]
pub(crate) fn split_error_text(e: &shell_words::ParseError) -> (r: String)
    ensures
        r@ == "missing closing quote"@,
{
    e.to_string()
}

/// What `sha2::Sha256` makes of some bytes.
pub uninterp spec fn sha256(bytes: Seq<u8>) -> Seq<u8>;

/// `sha2::Digest::digest` for `sha2::Sha256`: the 32 bytes of the hash.
#[verifier::external_body]
pub(crate) fn sha256_digest(bytes: &[u8]) -> (r: Vec<u8>)
    ensures
        r@ == sha256(bytes@),
        r@.len() == 32,
{
    <sha2::Sha256 as sha2::Digest>::digest(bytes).to_vec()
}

/// Two lower-case hexadecimal digits for every byte.
pub open spec fn hex_text(bytes: Seq<u8>) -> Seq<char>
    decreases bytes.len(),
{
    if bytes.len() == 0 {
        seq![]
    } else {
        hex_text(bytes.drop_last()).push(digit_char((bytes.last() / 16) as nat)).push(
            digit_char((bytes.last() % 16) as nat),
        )
    }
}

/// `hex::encode`: two lower-case hexadecimal digits for every byte, the high
/// one first.
#[verifier::external_body]
pub(crate) fn hex_encode(bytes: &[u8]) -> (r: String)
    ensures
        r@ == hex_text(bytes@),
{
    hex::encode(bytes)
}

/// What `String::from_utf8_lossy` makes of bytes that are not UTF-8.
pub uninterp spec fn replaced_text(bytes: Seq<u8>) -> Seq<char>;

/// The text of some bytes, whether they are UTF-8 or not.
pub open spec fn lossy_text(bytes: Seq<u8>) -> Seq<char> {
    if valid_utf8(bytes) {
        decode_utf8(bytes)
    } else {
        replaced_text(bytes)
    }
}

/// `String::from_utf8_lossy`: the text that the bytes encode. Bytes that are not
/// UTF-8 stand as replacement characters; how many is not stated.
#[verifier::external_body]
pub(crate) fn utf8_lossy(bytes: &[u8]) -> (r: String)
    ensures
        r@ == lossy_text(bytes@),
        !valid_utf8(bytes@) ==> r@ == replaced_text(bytes@),
{
    String::from_utf8_lossy(bytes).into_owned()
}

/// `String::from_utf8`: the text that the bytes encode, where they are UTF-8.
#[verifier::external_body]
pub(crate) fn utf8_strict(bytes: Vec<u8>) -> (r: Option<String>)
    ensures
        r is Some <==> valid_utf8(bytes@),
        r matches Some(s) ==> s@ == decode_utf8(bytes@),
{
    String::from_utf8(bytes).ok()
}

/// Whether a text can be the last component of a path: it is not empty, holds
/// no slash, and is neither of the two directory links.
pub open spec fn is_component(name: Seq<char>) -> bool {
    name.len() > 0 && !name.contains('/') && name != seq!['.'] && name != seq!['.', '.']
}

/// What `std::path::Path::file_name` says of a path that does not end in a name.
pub uninterp spec fn odd_file_name(path: Seq<char>) -> Option<Seq<char>>;

/// The file name of a path: what stands behind its last slash, where that is a
/// name.
pub open spec fn file_name_of(path: Seq<char>) -> Option<Seq<char>> {
    let name = path.skip(last_pos(path, '/') + 1);
    if is_component(name) {
        Some(name)
    } else {
        odd_file_name(path)
    }
}

/// `std::path::Path::file_name`: the last component of a path, where it is a
/// name. What is said of a path that ends otherwise is not stated.
#[verifier::external_body]
pub(crate) fn path_file_name(path: &str) -> (r: Option<String>)
    ensures
        opt_str(r) == file_name_of(path@),
        !is_component(path@.skip(last_pos(path@, '/') + 1)) ==> opt_str(r) == odd_file_name(path@),
{
    std::path::Path::new(path).file_name().map(|n| n.to_string_lossy().into_owned())
}

/// Whether a path ends in a name that stands alone, in the root directory, or in
/// a directory that itself ends in a name.
pub open spec fn is_plain_path(path: Seq<char>) -> bool {
    let slash = last_pos(path, '/');
    let dir = path.take(slash);
    &&& is_component(path.skip(slash + 1))
    &&& slash <= 0 || is_component(dir.skip(last_pos(dir, '/') + 1))
}

/// What `std::path::Path::parent` says of other paths.
pub uninterp spec fn odd_parent(path: Seq<char>) -> Option<Seq<char>>;

/// The directory of a path: what stands before its last slash, the root
/// directory where that slash is the first character, and nothing where there
/// is none.
pub open spec fn parent_of(path: Seq<char>) -> Option<Seq<char>> {
    let slash = last_pos(path, '/');
    if !is_plain_path(path) {
        odd_parent(path)
    } else if slash < 0 {
        Some(seq![])
    } else if slash == 0 {
        Some(seq!['/'])
    } else {
        Some(path.take(slash))
    }
}

/// `std::path::Path::parent`: a path without its last component. What is said of
/// a path with an empty component, or one that leads to the same or the upper
/// directory, at its end is not stated.
#[verifier::external_body]
pub(crate) fn path_parent(path: &str) -> (r: Option<String>)
    ensures
        opt_str(r) == parent_of(path@),
        !is_plain_path(path@) ==> opt_str(r) == odd_parent(path@),
{
    std::path::Path::new(path).parent().map(|p| p.to_string_lossy().into_owned())
}

/// What formatting a list of strings for debugging gives.
pub uninterp spec fn debug_list(list: Seq<Seq<char>>) -> Seq<char>;

/// `format!` with `{:?}`: a list of strings as it is shown for debugging, in
/// brackets, each string quoted and escaped.
#[verifier::external_body]
pub(crate) fn show_list(list: &Vec<String>) -> (r: String)
    ensures
        r@ == debug_list(strs(list@)),
{
    format!("{:?}", list)
}

/// What `serde_json::from_str` makes of a text that is to be a JSON object of
/// texts: the texts by their names, or the text of the error.
pub uninterp spec fn json_texts(text: Seq<char>) -> Result<Map<Seq<char>, Seq<char>>, Seq<char>>;

/// `serde_json::from_str` into a map from strings to strings: the named texts of
/// a JSON object, each name once, in no particular order; or the text of the
/// error where the text is not such an object.
#[verifier::external_body]
pub(crate) fn parse_texts(text: &str) -> (r: Result<Vec<(String, String)>, String>)
    ensures
        match json_texts(text@) {
            Ok(entries) => r matches Ok(list) && distinct_names(list@) && entry_map(list@)
                == entries,
            Err(error) => r matches Err(t) && t@ == error,
        },
{
    match serde_json::from_str::<std::collections::HashMap<String, String>>(text) {
        Ok(entries) => Ok(entries.into_iter().collect()),
        Err(error) => Err(error.to_string()),
    }
}

/// `base64::Engine::encode` with `base64::engine::general_purpose::STANDARD`:
/// the base64 text of some bytes in the standard alphabet, with padding.
#[verifier::external_body]
pub(crate) fn base64_standard(bytes: &[u8]) -> (r: String)
    ensures
        r@ == base64_text(bytes@),
{
    base64::Engine::encode(&base64::engine::general_purpose::STANDARD, bytes)
}

/// `prost::encoding::decode_varint`: the number at the front of some bytes, and
/// the bytes behind it. Where there is none, either nothing was read or
/// everything.
#[verifier::external_body]
pub(crate) fn take_varint<'a>(bytes: &'a [u8]) -> (r: (Option<u64>, &'a [u8]))
    ensures
        match varint(bytes@) {
            Some(v) => r.0 == Some(v.0) && r.1@ == bytes@.skip(v.1),
            None => r.0 is None && (r.1@ == bytes@ || r.1@.len() == 0),
        },
{
    let mut rest = bytes;
    let value = prost::encoding::decode_varint(&mut rest).ok();
    (value, rest)
}

/// `prost::encoding::decode_key`: the tag and the wire type at the front of some
/// bytes, and the bytes behind them. What is left where there are none is not
/// stated.
#[verifier::external_body]
pub(crate) fn take_key<'a>(bytes: &'a [u8]) -> (r: (Option<(u32, Wire)>, &'a [u8]))
    ensures
        match field_key(bytes@) {
            Some(k) => r.0 == Some((k.0, k.1)) && r.1@ == bytes@.skip(k.2),
            None => r.0 is None,
        },
{
    let mut rest = bytes;
    let key = match prost::encoding::decode_key(&mut rest) {
        Ok((tag, prost::encoding::WireType::Varint)) => Some((tag, Wire::Varint)),
        Ok((tag, prost::encoding::WireType::SixtyFourBit)) => Some((tag, Wire::SixtyFourBit)),
        Ok((tag, prost::encoding::WireType::LengthDelimited)) => Some((tag, Wire::LengthDelimited)),
        Ok((tag, prost::encoding::WireType::StartGroup)) => Some((tag, Wire::StartGroup)),
        Ok((tag, prost::encoding::WireType::EndGroup)) => Some((tag, Wire::EndGroup)),
        Ok((tag, prost::encoding::WireType::ThirtyTwoBit)) => Some((tag, Wire::ThirtyTwoBit)),
        Err(_) => None,
    };
    (key, rest)
}

/// What is left of some bytes when `prost::encoding::skip_field` has passed over
/// a group with this tag.
pub uninterp spec fn group_skipped(tag: u32, bytes: Seq<u8>) -> Option<Seq<u8>>;

/// `prost::encoding::skip_field` with the default context: the bytes behind a
/// field's value. For a group, which holds fields of its own, only that no more
/// is left than there was.
#[verifier::external_body]
pub(crate) fn skip_field<'a>(wire: Wire, tag: u32, bytes: &'a [u8]) -> (r: Option<&'a [u8]>)
    ensures
        r matches Some(rest) ==> rest@.len() <= bytes@.len(),
        wire is StartGroup ==> opt_bytes(r) == group_skipped(tag, bytes@),
        !(wire is StartGroup) ==> opt_bytes(r) == plain_skipped(wire, bytes@),
{
    let wire_type = match wire {
        Wire::Varint => prost::encoding::WireType::Varint,
        Wire::SixtyFourBit => prost::encoding::WireType::SixtyFourBit,
        Wire::LengthDelimited => prost::encoding::WireType::LengthDelimited,
        Wire::StartGroup => prost::encoding::WireType::StartGroup,
        Wire::EndGroup => prost::encoding::WireType::EndGroup,
        Wire::ThirtyTwoBit => prost::encoding::WireType::ThirtyTwoBit,
    };
    let mut rest = bytes;
    let context = prost::encoding::DecodeContext::default();
    prost::encoding::skip_field(wire_type, tag, &mut rest, context).ok()?;
    Some(rest)
}

} // verus!
