//! Text as sequences of characters: the vocabulary that the contracts of the
//! other modules use, and executable functions that meet it.
use vstd::prelude::*;
use vstd::string::*;
use vstd::utf8::*;

verus! {

// ---------------------------------------------------------------------------
// Standard string operations
// ---------------------------------------------------------------------------

/// `String::push` appends one character.
pub assume_specification[ String::push ](s: &mut String, c: char)
    ensures
        final(s)@ == old(s)@.push(c),
;

/// The contents of a list of strings.
pub open spec fn strs(list: Seq<String>) -> Seq<Seq<char>> {
    list.map_values(|s: String| s@)
}

/// The contents of an optional string.
pub open spec fn opt_str(o: Option<String>) -> Option<Seq<char>> {
    match o {
        Some(s) => Some(s@),
        None => None,
    }
}

/// The contents of a list of pairs of strings.
pub open spec fn str_pairs(list: Seq<(String, String)>) -> Seq<(Seq<char>, Seq<char>)> {
    list.map_values(|p: (String, String)| (p.0@, p.1@))
}

/// The characters of `s`.
pub fn chars_of(s: &str) -> (r: Vec<char>)
    ensures
        r@ == s@,
{
    let mut out: Vec<char> = Vec::new();
    for c in it: s.chars()
        invariant
            it.seq() == s@,
            out@ == s@.take(it.index() as int),
    {
        out.push(c);
        assert(s@.take(it.index() as int + 1) =~= s@.take(it.index() as int).push(c));
    }
    assert(s@.take(s@.len() as int) =~= s@);
    out
}

/// The string that holds `chars[from..to]`.
pub fn string_of(chars: &Vec<char>, from: usize, to: usize) -> (r: String)
    requires
        from <= to <= chars.len(),
    ensures
        r@ == chars@.subrange(from as int, to as int),
{
    let mut out = String::new();
    let mut i: usize = from;
    assert(chars@.subrange(from as int, from as int) =~= Seq::<char>::empty());
    while i < to
        invariant
            from <= i <= to <= chars.len(),
            out@ == chars@.subrange(from as int, i as int),
        decreases to - i,
    {
        out.push(chars[i]);
        assert(chars@.subrange(from as int, i as int + 1) =~= chars@.subrange(
            from as int,
            i as int,
        ).push(chars[i as int]));
        i += 1;
    }
    out
}

/// A copy of an optional text.
pub fn copy_opt(o: &Option<String>) -> (r: Option<String>)
    ensures
        r == *o,
{
    match o {
        Some(s) => Some(s.clone()),
        None => None,
    }
}

/// The short form of an id: its first twelve characters.
pub open spec fn short_id_of(id: Seq<char>) -> Seq<char> {
    if id.len() <= 12 {
        id
    } else {
        id.take(12)
    }
}

/// The short form of an id: its first twelve characters.
pub fn short_id(instance_id: &str) -> (r: String)
    ensures
        r@ == short_id_of(instance_id@),
{
    let text = chars_of(instance_id);
    let n: usize = if text.len() < 12 {
        text.len()
    } else {
        12
    };
    let out = string_of(&text, 0, n);
    assert(out@ =~= short_id_of(instance_id@));
    out
}

/// Whether two strings hold the same characters.
pub fn same(a: &str, b: &str) -> (r: bool)
    ensures
        r == (a@ == b@),
{
    a.to_owned() == b.to_owned()
}

/// The text of the first `n` bytes of `s`, or of all of them where there are
/// fewer.
pub open spec fn byte_prefix(s: Seq<char>, n: nat) -> Seq<char> {
    let bytes = encode_utf8(s);
    if bytes.len() <= n {
        s
    } else {
        decode_utf8(bytes.take(n as int))
    }
}

/// Whether the first `n` bytes of `s` end between two characters.
pub open spec fn cuts_cleanly(s: Seq<char>, n: nat) -> bool {
    let bytes = encode_utf8(s);
    bytes.len() <= n || is_char_boundary(bytes, n as int)
}

/// The bytes of two texts, one behind the other, are those of both together.
pub proof fn lemma_encode_concat(s: Seq<char>, t: Seq<char>)
    ensures
        encode_utf8(s + t) == encode_utf8(s) + encode_utf8(t),
    decreases s.len(),
{
    if s.len() == 0 {
        assert(s + t =~= t);
        assert(encode_utf8(s) + encode_utf8(t) =~= encode_utf8(t));
    } else {
        lemma_encode_concat(s.drop_first(), t);
        assert((s + t).drop_first() =~= s.drop_first() + t);
        assert(encode_utf8(s + t) =~= encode_utf8(s) + encode_utf8(t));
    }
}

/// A text has at most as many characters as bytes.
proof fn lemma_chars_at_most_bytes(s: Seq<char>)
    ensures
        s.len() <= encode_utf8(s).len(),
    decreases s.len(),
{
    if s.len() > 0 {
        lemma_chars_at_most_bytes(s.drop_first());
    }
}

/// The first bytes of a text hold at most as many characters.
pub proof fn lemma_byte_prefix_len(s: Seq<char>, n: nat)
    requires
        cuts_cleanly(s, n),
    ensures
        byte_prefix(s, n).len() <= n,
{
    let bytes = encode_utf8(s);
    if bytes.len() <= n {
        lemma_chars_at_most_bytes(s);
    } else {
        encode_utf8_valid_utf8(s);
        valid_utf8_split(bytes, n as int);
        assert(bytes.take(n as int) =~= bytes.subrange(0, n as int));
        decode_utf8_encode_utf8(bytes.take(n as int));
        lemma_chars_at_most_bytes(decode_utf8(bytes.take(n as int)));
    }
}

/// The text of the first `n` bytes of `s`, or of all of them where there are
/// fewer.
pub fn first_bytes(s: &str, n: usize) -> (r: String)
    requires
        cuts_cleanly(s@, n as nat),
    ensures
        r@ == byte_prefix(s@, n as nat),
{
    let len: usize = s.as_bytes().len();
    if len <= n {
        s.to_owned()
    } else {
        let (head, _) = s.split_at(n);
        proof {
            encode_utf8_decode_utf8(head@);
            assert(encode_utf8(head@) =~= encode_utf8(s@).take(n as int));
        }
        head.to_owned()
    }
}

// ---------------------------------------------------------------------------
// Concatenation
// ---------------------------------------------------------------------------

/// `a` followed by `b`.
pub fn cat2(a: &str, b: &str) -> (r: String)
    ensures
        r@ == a@ + b@,
{
    let mut s = a.to_owned();
    s.append(b);
    s
}

/// `a`, `b` and `c`, one after the other.
pub fn cat3(a: &str, b: &str, c: &str) -> (r: String)
    ensures
        r@ == a@ + b@ + c@,
{
    let mut s = cat2(a, b);
    s.append(c);
    s
}

/// Four strings, one after the other.
pub fn cat4(a: &str, b: &str, c: &str, d: &str) -> (r: String)
    ensures
        r@ == a@ + b@ + c@ + d@,
{
    let mut s = cat3(a, b, c);
    s.append(d);
    s
}

/// Five strings, one after the other.
pub fn cat5(a: &str, b: &str, c: &str, d: &str, e: &str) -> (r: String)
    ensures
        r@ == a@ + b@ + c@ + d@ + e@,
{
    let mut s = cat4(a, b, c, d);
    s.append(e);
    s
}

/// Six strings, one after the other.
pub fn cat6(a: &str, b: &str, c: &str, d: &str, e: &str, f: &str) -> (r: String)
    ensures
        r@ == a@ + b@ + c@ + d@ + e@ + f@,
{
    let mut s = cat5(a, b, c, d, e);
    s.append(f);
    s
}

/// Seven strings, one after the other.
pub fn cat7(a: &str, b: &str, c: &str, d: &str, e: &str, f: &str, g: &str) -> (r: String)
    ensures
        r@ == a@ + b@ + c@ + d@ + e@ + f@ + g@,
{
    let mut s = cat6(a, b, c, d, e, f);
    s.append(g);
    s
}

// ---------------------------------------------------------------------------
// Numbers as text
// ---------------------------------------------------------------------------

/// The character of a digit below sixteen, letters in lower case.
pub open spec fn digit_char(d: nat) -> char {
    if d < 10 {
        (48 + d) as char
    } else {
        (87 + d) as char
    }
}

/// A number in the given base, without leading zeros.
pub open spec fn numeral(n: nat, base: nat) -> Seq<char>
    decreases n,
{
    if base < 2 || n < base {
        seq![digit_char(n)]
    } else {
        proof {
            assert(n / base < n) by (nonlinear_arith)
                requires
                    2 <= base <= n,
            ;
        }
        numeral(n / base, base).push(digit_char(n % base))
    }
}

/// A number in base ten.
pub open spec fn decimal(n: nat) -> Seq<char> {
    numeral(n, 10)
}

/// A signed number in base ten.
pub open spec fn signed_decimal(n: int) -> Seq<char> {
    if n < 0 {
        seq!['-'] + decimal((-n) as nat)
    } else {
        decimal(n as nat)
    }
}

/// A number in base sixteen, in lower case.
pub open spec fn hexadecimal(n: nat) -> Seq<char> {
    numeral(n, 16)
}

/// `s` with zeros in front until it is `width` characters long.
pub open spec fn zero_padded(s: Seq<char>, width: nat) -> Seq<char> {
    if s.len() >= width {
        s
    } else {
        Seq::new((width - s.len()) as nat, |i: int| '0') + s
    }
}

/// Different digits have different characters, all of them digits or letters.
proof fn lemma_digit_char(a: nat, b: nat)
    requires
        a < 16,
        b < 16,
    ensures
        digit_char(a) == digit_char(b) ==> a == b,
        is_digit(digit_char(a)) || 'a' <= digit_char(a) <= 'f',
        a < 10 ==> is_digit(digit_char(a)),
{
}

/// A numeral is not empty, and its characters are digits of its base.
pub proof fn lemma_numeral_chars(n: nat, base: nat)
    requires
        2 <= base <= 16,
    ensures
        numeral(n, base).len() > 0,
        forall|i: int|
            0 <= i < numeral(n, base).len() ==> is_digit(#[trigger] numeral(n, base)[i]) || 'a'
                <= numeral(n, base)[i] <= 'f',
        base <= 10 ==> forall|i: int|
            0 <= i < numeral(n, base).len() ==> is_digit(#[trigger] numeral(n, base)[i]),
    decreases n,
{
    if n >= base {
        assert(n / base < n) by (nonlinear_arith)
            requires
                2 <= base <= n,
        ;
        assert(n % base < base) by (nonlinear_arith)
            requires
                base > 0,
        ;
        lemma_numeral_chars(n / base, base);
        lemma_digit_char(n % base, 0);
    } else {
        lemma_digit_char(n, 0);
    }
}

/// Different numbers have different numerals.
pub proof fn lemma_numeral_injective(a: nat, b: nat, base: nat)
    requires
        2 <= base <= 16,
        numeral(a, base) == numeral(b, base),
    ensures
        a == b,
    decreases a,
{
    let sa = numeral(a, base);
    let sb = numeral(b, base);
    assert(a % base < base && b % base < base) by (nonlinear_arith)
        requires
            base > 0,
    ;
    assert(a < base ==> a % base == a) by (nonlinear_arith)
        requires
            base > 0,
    ;
    assert(b < base ==> b % base == b) by (nonlinear_arith)
        requires
            base > 0,
    ;
    assert(sa.last() == digit_char(a % base));
    assert(sb.last() == digit_char(b % base));
    lemma_digit_char(a % base, b % base);
    if a >= base {
        assert(a / base < a) by (nonlinear_arith)
            requires
                2 <= base <= a,
        ;
        lemma_numeral_chars(a / base, base);
    }
    if b >= base {
        lemma_numeral_chars(b / base, base);
    }
    if a >= base && b >= base {
        assert(sa.drop_last() =~= numeral(a / base, base));
        assert(sb.drop_last() =~= numeral(b / base, base));
        lemma_numeral_injective(a / base, b / base, base);
        assert(a == base * (a / base) + a % base) by (nonlinear_arith)
            requires
                base > 0,
        ;
        assert(b == base * (b / base) + b % base) by (nonlinear_arith)
            requires
                base > 0,
        ;
    } else if a >= base {
        assert(sa.len() > 1);
        assert(sb.len() == 1);
    } else if b >= base {
        assert(sb.len() > 1);
        assert(sa.len() == 1);
    }
}

/// `base` to the power of `k`.
pub open spec fn power(base: nat, k: nat) -> nat
    decreases k,
{
    if k == 0 {
        1
    } else {
        base * power(base, (k - 1) as nat)
    }
}

/// A number below `base` to the power of `k` has at most `k` digits.
pub proof fn lemma_numeral_len(n: nat, base: nat, k: nat)
    requires
        2 <= base,
        1 <= k,
        n < power(base, k),
    ensures
        numeral(n, base).len() <= k,
    decreases k,
{
    if n >= base {
        let p = power(base, (k - 1) as nat);
        if k == 1 {
            assert(base * power(base, 0) == base) by (nonlinear_arith)
                requires
                    power(base, 0) == 1,
            ;
        } else {
            assert(n / base < p) by (nonlinear_arith)
                requires
                    n < base * p,
                    base >= 2,
            ;
            lemma_numeral_len(n / base, base, (k - 1) as nat);
        }
    }
}

/// The character of one digit.
pub fn digit(d: u8) -> (c: char)
    requires
        d < 16,
    ensures
        c == digit_char(d as nat),
{
    if d < 10 {
        (48 + d) as char
    } else {
        (87 + d) as char
    }
}

/// A number in a base from two to sixteen.
pub fn numeral_u64(n: u64, base: u64) -> (r: String)
    requires
        2 <= base <= 16,
    ensures
        r@ == numeral(n as nat, base as nat),
    decreases n,
{
    let last: u8 = (n % base) as u8;
    if n < base {
        let mut s = String::new();
        s.push(digit(n as u8));
        assert(s@ =~= seq![digit_char(n as nat)]);
        s
    } else {
        proof {
            assert(n / base < n) by (nonlinear_arith)
                requires
                    2 <= base,
                    base <= n,
            ;
        }
        let mut s = numeral_u64(n / base, base);
        s.push(digit(last));
        s
    }
}

/// A number in base ten.
pub fn decimal_u64(n: u64) -> (r: String)
    ensures
        r@ == decimal(n as nat),
{
    numeral_u64(n, 10)
}

/// A signed number in base ten.
pub fn decimal_i64(n: i64) -> (r: String)
    ensures
        r@ == signed_decimal(n as int),
{
    if n < 0 {
        let low: u64 = (-(n + 1)) as u64;
        let digits = decimal_u64(low + 1);
        let mut s = String::new();
        s.push('-');
        s.append(digits.as_str());
        assert(s@ =~= seq!['-'] + decimal((-n) as nat));
        s
    } else {
        decimal_u64(n as u64)
    }
}

/// A number in base sixteen.
pub fn hexadecimal_u64(n: u64) -> (r: String)
    ensures
        r@ == hexadecimal(n as nat),
{
    numeral_u64(n, 16)
}

/// `s` with zeros in front until it is `width` characters long.
pub fn zero_pad(s: &str, width: usize) -> (r: String)
    ensures
        r@ == zero_padded(s@, width as nat),
{
    let len: usize = s.unicode_len();
    let mut out = String::new();
    let mut i: usize = len;
    while i < width
        invariant
            len == s@.len(),
            len <= i,
            i <= width || i == len,
            out@ =~= Seq::new((i - len) as nat, |k: int| '0'),
        decreases width - i,
    {
        out.push('0');
        i += 1;
    }
    out.append(s);
    assert(out@ =~= zero_padded(s@, width as nat));
    out
}

// ---------------------------------------------------------------------------
// Search
// ---------------------------------------------------------------------------

/// Whether `pat` stands in `s` from position `i` on.
pub open spec fn occurs_at(s: Seq<char>, pat: Seq<char>, i: int) -> bool {
    0 <= i && i + pat.len() <= s.len() && s.subrange(i, i + pat.len()) == pat
}

/// Whether `pat` stands somewhere in `s`.
pub open spec fn contains(s: Seq<char>, pat: Seq<char>) -> bool {
    exists|i: int| #[trigger] occurs_at(s, pat, i)
}

/// Whether `pat` stands in `s` from position `i` on.
pub fn matches_at(s: &Vec<char>, pat: &Vec<char>, i: usize) -> (r: bool)
    ensures
        r == occurs_at(s@, pat@, i as int),
{
    if i > s.len() || pat.len() > s.len() - i {
        return false;
    }
    let mut k: usize = 0;
    while k < pat.len()
        invariant
            k <= pat.len(),
            i + pat.len() <= s.len(),
            forall|j: int| 0 <= j < k ==> s@[i + j] == pat@[j],
        decreases pat.len() - k,
    {
        if s[i + k] != pat[k] {
            assert(s@.subrange(i as int, i + pat.len())[k as int] != pat@[k as int]);
            return false;
        }
        k += 1;
    }
    assert(s@.subrange(i as int, i + pat.len()) =~= pat@);
    true
}

/// Whether `pat` stands somewhere in `s`.
pub fn has(s: &str, pat: &str) -> (r: bool)
    ensures
        r == contains(s@, pat@),
{
    let text = chars_of(s);
    let needle = chars_of(pat);
    let mut i: usize = 0;
    while i <= text.len()
        invariant
            text@ == s@,
            needle@ == pat@,
            i <= text.len() + 1,
            forall|j: int| 0 <= j < i ==> !#[trigger] occurs_at(s@, pat@, j),
        decreases text.len() + 1 - i,
    {
        if matches_at(&text, &needle, i) {
            assert(occurs_at(s@, pat@, i as int));
            return true;
        }
        if i == text.len() {
            assert forall|j: int| !#[trigger] occurs_at(s@, pat@, j) by {}
            return false;
        }
        i += 1;
    }
    false
}

/// Whether `s` begins with `pat`.
pub fn begins(s: &str, pat: &str) -> (r: bool)
    ensures
        r == pat@.is_prefix_of(s@),
{
    let text = chars_of(s);
    let needle = chars_of(pat);
    matches_at(&text, &needle, 0)
}

/// Whether `s` ends with `pat`.
pub fn ends(s: &str, pat: &str) -> (r: bool)
    ensures
        r == pat@.is_suffix_of(s@),
{
    let text = chars_of(s);
    let needle = chars_of(pat);
    if needle.len() > text.len() {
        return false;
    }
    matches_at(&text, &needle, text.len() - needle.len())
}

/// `s` without `pat` at its end, where it stands there.
pub open spec fn without_suffix(s: Seq<char>, pat: Seq<char>) -> Option<Seq<char>> {
    if pat.is_suffix_of(s) {
        Some(s.take(s.len() - pat.len()))
    } else {
        None
    }
}

/// `s` without `pat` at its front, where it stands there.
pub open spec fn without_prefix(s: Seq<char>, pat: Seq<char>) -> Option<Seq<char>> {
    if pat.is_prefix_of(s) {
        Some(s.skip(pat.len() as int))
    } else {
        None
    }
}

/// `s` without `pat` at its end, where it stands there.
pub fn strip_end(s: &str, pat: &str) -> (r: Option<String>)
    ensures
        opt_str(r) == without_suffix(s@, pat@),
{
    if !ends(s, pat) {
        return None;
    }
    let n: usize = s.unicode_len() - pat.unicode_len();
    let text = chars_of(s);
    let out = string_of(&text, 0, n);
    assert(s@.subrange(0, n as int) =~= s@.take(n as int));
    Some(out)
}

/// `s` without `pat` at its front, where it stands there.
pub fn strip_front(s: &str, pat: &str) -> (r: Option<String>)
    ensures
        opt_str(r) == without_prefix(s@, pat@),
{
    if !begins(s, pat) {
        return None;
    }
    let n: usize = pat.unicode_len();
    let text = chars_of(s);
    let out = string_of(&text, n, text.len());
    assert(s@.subrange(n as int, s@.len() as int) =~= s@.skip(n as int));
    Some(out)
}

/// `s` without the copies of `pat` at its end.
pub open spec fn without_trailing(s: Seq<char>, pat: Seq<char>) -> Seq<char>
    decreases s.len(),
{
    if pat.len() > 0 && pat.is_suffix_of(s) {
        without_trailing(s.take(s.len() - pat.len()), pat)
    } else {
        s
    }
}

/// `s` without the copies of `pat` at its end.
pub fn strip_end_all(s: &str, pat: &str) -> (r: String)
    requires
        pat@.len() > 0,
    ensures
        r@ == without_trailing(s@, pat@),
{
    let mut out = s.to_owned();
    loop
        invariant_except_break
            without_trailing(s@, pat@) == without_trailing(out@, pat@),
        invariant
            pat@.len() > 0,
        ensures
            out@ == without_trailing(s@, pat@),
        decreases out@.len(),
    {
        let next = strip_end(out.as_str(), pat);
        match next {
            Some(rest) => {
                out = rest;
            },
            None => {
                break ;
            },
        }
    }
    out
}

/// Position of the first `c` in `s`; the length of `s` where there is none.
pub open spec fn first_pos(s: Seq<char>, c: char) -> int
    decreases s.len(),
{
    if s.len() == 0 || s[0] == c {
        0
    } else {
        1 + first_pos(s.skip(1), c)
    }
}

/// The first position is the one before which `c` does not occur.
pub proof fn lemma_first_pos(s: Seq<char>, c: char)
    ensures
        0 <= first_pos(s, c) <= s.len(),
        first_pos(s, c) < s.len() ==> s[first_pos(s, c)] == c,
        forall|j: int| 0 <= j < first_pos(s, c) ==> s[j] != c,
    decreases s.len(),
{
    if s.len() != 0 && s[0] != c {
        lemma_first_pos(s.skip(1), c);
        assert forall|j: int| 0 <= j < first_pos(s, c) implies s[j] != c by {
            if j > 0 {
                assert(s.skip(1)[j - 1] == s[j]);
            }
        }
    }
}

/// Only one position has the properties of the first one.
pub proof fn lemma_first_pos_unique(s: Seq<char>, c: char, p: int)
    requires
        0 <= p <= s.len(),
        p < s.len() ==> s[p] == c,
        forall|j: int| 0 <= j < p ==> s[j] != c,
    ensures
        p == first_pos(s, c),
{
    lemma_first_pos(s, c);
    let q = first_pos(s, c);
    if p < q {
        assert(s[p] != c);
    }
    if q < p {
        assert(s[q] != c);
    }
}

/// Position of the first `c` at or after `from`.
pub fn find_from(s: &Vec<char>, c: char, from: usize) -> (p: usize)
    requires
        from <= s.len(),
    ensures
        p == from + first_pos(s@.skip(from as int), c),
        from <= p <= s.len(),
        p < s.len() ==> s@[p as int] == c,
        forall|j: int| from <= j < p ==> s@[j] != c,
{
    let mut i: usize = from;
    let ghost rest = s@.skip(from as int);
    while i < s.len() && s[i] != c
        invariant
            from <= i <= s.len(),
            forall|j: int| from <= j < i ==> s@[j] != c,
        decreases s.len() - i,
    {
        i += 1;
    }
    proof {
        assert forall|j: int| 0 <= j < i - from implies rest[j] != c by {
            assert(rest[j] == s@[from + j]);
        }
        lemma_first_pos_unique(rest, c, i - from);
    }
    i
}

/// Position of the last `c` in `s`; `-1` where there is none.
pub open spec fn last_pos(s: Seq<char>, c: char) -> int
    decreases s.len(),
{
    if s.len() == 0 {
        -1
    } else if s.last() == c {
        s.len() - 1
    } else {
        last_pos(s.drop_last(), c)
    }
}

/// The last position is the one after which `c` does not occur.
pub proof fn lemma_last_pos(s: Seq<char>, c: char)
    ensures
        -1 <= last_pos(s, c) < s.len(),
        last_pos(s, c) >= 0 ==> s[last_pos(s, c)] == c,
        forall|j: int| last_pos(s, c) < j < s.len() ==> s[j] != c,
    decreases s.len(),
{
    if s.len() > 0 && s.last() != c {
        lemma_last_pos(s.drop_last(), c);
        assert forall|j: int| last_pos(s, c) < j < s.len() implies s[j] != c by {
            if j < s.len() - 1 {
                assert(s.drop_last()[j] == s[j]);
            }
        }
    }
}

/// Position of the last `c` in `s`.
pub fn find_last(s: &Vec<char>, c: char) -> (r: Option<usize>)
    ensures
        match r {
            Some(p) => p == last_pos(s@, c) && p < s.len(),
            None => last_pos(s@, c) == -1,
        },
{
    let mut i: usize = s.len();
    assert(s@.take(s@.len() as int) =~= s@);
    while i > 0
        invariant
            i <= s.len(),
            last_pos(s@, c) == last_pos(s@.take(i as int), c),
        decreases i,
    {
        let ghost head = s@.take(i as int);
        if s[i - 1] == c {
            return Some(i - 1);
        }
        assert(head.drop_last() =~= s@.take(i - 1));
        i -= 1;
    }
    None
}

// ---------------------------------------------------------------------------
// Splitting
// ---------------------------------------------------------------------------

/// `s` without a carriage return at its end.
pub open spec fn without_cr(s: Seq<char>) -> Seq<char> {
    if s.len() > 0 && s.last() == '\r' {
        s.drop_last()
    } else {
        s
    }
}

/// The lines of `s`: each ends at a line feed, which may follow a carriage
/// return, or at the end of the text; nothing after the last line feed is no
/// line.
pub open spec fn lines(s: Seq<char>) -> Seq<Seq<char>>
    decreases s.len(),
{
    let p = first_pos(s, '\n');
    if s.len() == 0 {
        seq![]
    } else if 0 <= p < s.len() {
        seq![without_cr(s.take(p))] + lines(s.skip(p + 1))
    } else {
        seq![s]
    }
}

/// The lines of `s`.
pub fn lines_of(s: &str) -> (r: Vec<String>)
    ensures
        strs(r@) == lines(s@),
{
    let text = chars_of(s);
    let mut out: Vec<String> = Vec::new();
    let mut from: usize = 0;
    assert(s@.skip(0) =~= s@);
    while from < text.len()
        invariant
            text@ == s@,
            from <= text.len(),
            lines(s@) == strs(out@) + lines(s@.skip(from as int)),
        decreases text.len() - from,
    {
        let p: usize = find_from(&text, '\n', from);
        let ghost rest = s@.skip(from as int);
        let ghost before = out@;
        if p == text.len() {
            let piece = string_of(&text, from, p);
            assert(piece@ =~= rest);
            out.push(piece);
            assert(strs(out@) =~= strs(before) + seq![rest]);
            return out;
        }
        let mut end: usize = p;
        if p > from && text[p - 1] == '\r' {
            end = p - 1;
        }
        let piece = string_of(&text, from, end);
        assert(piece@ =~= without_cr(rest.take(p - from)));
        out.push(piece);
        assert(rest.skip(p - from + 1) =~= s@.skip(p + 1));
        assert(strs(out@) + lines(s@.skip(p + 1)) =~= strs(before) + (seq![piece@] + lines(
            s@.skip(p + 1),
        )));
        from = p + 1;
    }
    assert(s@.skip(from as int) =~= Seq::<char>::empty());
    assert(strs(out@) =~= lines(s@));
    out
}

// ---------------------------------------------------------------------------
// White space and case
// ---------------------------------------------------------------------------

/// The characters that Unicode calls white space.
pub open spec fn is_space(c: char) -> bool {
    let n = c as u32;
    ||| 9 <= n <= 13
    ||| n == 0x20
    ||| n == 0x85
    ||| n == 0xA0
    ||| n == 0x1680
    ||| 0x2000 <= n <= 0x200A
    ||| n == 0x2028
    ||| n == 0x2029
    ||| n == 0x202F
    ||| n == 0x205F
    ||| n == 0x3000
}

/// Whether `c` is white space.
pub fn space(c: char) -> (r: bool)
    ensures
        r == is_space(c),
{
    let n: u32 = c as u32;
    (9 <= n && n <= 13) || n == 0x20 || n == 0x85 || n == 0xA0 || n == 0x1680 || (0x2000 <= n && n
        <= 0x200A) || n == 0x2028 || n == 0x2029 || n == 0x202F || n == 0x205F || n == 0x3000
}

/// `s` without white space at its end.
pub open spec fn trimmed_end(s: Seq<char>) -> Seq<char>
    decreases s.len(),
{
    if s.len() > 0 && is_space(s.last()) {
        trimmed_end(s.drop_last())
    } else {
        s
    }
}

/// `s` without white space at its front.
pub open spec fn trimmed_start(s: Seq<char>) -> Seq<char>
    decreases s.len(),
{
    if s.len() > 0 && is_space(s[0]) {
        trimmed_start(s.skip(1))
    } else {
        s
    }
}

/// `s` without white space at either end.
pub open spec fn trimmed(s: Seq<char>) -> Seq<char> {
    trimmed_start(trimmed_end(s))
}

/// `s` without white space at its end.
pub fn trim_end(s: &str) -> (r: String)
    ensures
        r@ == trimmed_end(s@),
{
    let text = chars_of(s);
    let mut n: usize = text.len();
    assert(s@.take(s@.len() as int) =~= s@);
    while n > 0 && space(text[n - 1])
        invariant
            text@ == s@,
            n <= text.len(),
            trimmed_end(s@) == trimmed_end(s@.take(n as int)),
        decreases n,
    {
        assert(s@.take(n as int).drop_last() =~= s@.take(n - 1));
        n -= 1;
    }
    let out = string_of(&text, 0, n);
    assert(out@ =~= s@.take(n as int));
    out
}

/// `s` without white space at either end.
pub fn trim(s: &str) -> (r: String)
    ensures
        r@ == trimmed(s@),
{
    let body = trim_end(s);
    let text = chars_of(body.as_str());
    let mut i: usize = 0;
    assert(body@.skip(0) =~= body@);
    while i < text.len() && space(text[i])
        invariant
            text@ == body@,
            i <= text.len(),
            trimmed_start(body@) == trimmed_start(body@.skip(i as int)),
        decreases text.len() - i,
    {
        assert(body@.skip(i as int).skip(1) =~= body@.skip(i + 1));
        i += 1;
    }
    let out = string_of(&text, i, text.len());
    assert(out@ =~= body@.skip(i as int));
    out
}

/// Position of the first white space in `s`; the length of `s` where there is
/// none.
pub open spec fn first_space(s: Seq<char>) -> int
    decreases s.len(),
{
    if s.len() == 0 || is_space(s[0]) {
        0
    } else {
        1 + first_space(s.skip(1))
    }
}

/// The first white space is within the text.
pub proof fn lemma_first_space(s: Seq<char>)
    ensures
        0 <= first_space(s) <= s.len(),
        s.len() > 0 && !is_space(s[0]) ==> first_space(s) > 0,
    decreases s.len(),
{
    if s.len() > 0 && !is_space(s[0]) {
        lemma_first_space(s.skip(1));
    }
}

/// Removing white space at the front leaves no more than there was.
pub proof fn lemma_trimmed_start(s: Seq<char>)
    ensures
        trimmed_start(s).len() <= s.len(),
        trimmed_start(s).len() > 0 ==> !is_space(trimmed_start(s)[0]),
    decreases s.len(),
{
    if s.len() > 0 && is_space(s[0]) {
        lemma_trimmed_start(s.skip(1));
    }
}

/// The words of `s`: what stands between white space.
pub open spec fn words(s: Seq<char>) -> Seq<Seq<char>>
    decreases s.len(),
{
    let t = trimmed_start(s);
    let p = first_space(t);
    proof {
        lemma_trimmed_start(s);
        lemma_first_space(t);
    }
    if t.len() == 0 {
        seq![]
    } else {
        seq![t.take(p)] + words(t.skip(p))
    }
}

/// The words of `s`.
pub fn words_of(s: &str) -> (r: Vec<String>)
    ensures
        strs(r@) == words(s@),
{
    let text = chars_of(s);
    let mut out: Vec<String> = Vec::new();
    let mut i: usize = 0;
    assert(s@.skip(0) =~= s@);
    assert(strs(out@) + words(s@) =~= words(s@));
    loop
        invariant
            text@ == s@,
            i <= text.len(),
            words(s@) == strs(out@) + words(s@.skip(i as int)),
        decreases text.len() - i,
    {
        let ghost rest = s@.skip(i as int);
        let mut from: usize = i;
        while from < text.len() && space(text[from])
            invariant
                text@ == s@,
                i <= from <= text.len(),
                trimmed_start(s@.skip(i as int)) == trimmed_start(s@.skip(from as int)),
            decreases text.len() - from,
        {
            assert(s@.skip(from as int).skip(1) =~= s@.skip(from + 1));
            from += 1;
        }
        let ghost t = s@.skip(from as int);
        assert(trimmed_start(rest) == t);
        if from == text.len() {
            assert(strs(out@) + Seq::<Seq<char>>::empty() =~= strs(out@));
            return out;
        }
        let mut to: usize = from;
        while to < text.len() && !space(text[to])
            invariant
                text@ == s@,
                from <= to <= text.len(),
                first_space(s@.skip(from as int)) == (to - from) + first_space(s@.skip(to as int)),
            decreases text.len() - to,
        {
            assert(s@.skip(to as int).skip(1) =~= s@.skip(to + 1));
            to += 1;
        }
        let piece = string_of(&text, from, to);
        let ghost before = out@;
        out.push(piece);
        proof {
            lemma_first_space(t);
            assert(first_space(s@.skip(to as int)) == 0);
            assert(piece@ =~= t.take(to - from));
            assert(t.skip(to - from) =~= s@.skip(to as int));
            assert(strs(out@) + words(s@.skip(to as int)) =~= strs(before) + (seq![piece@]
                + words(s@.skip(to as int))));
        }
        i = to;
    }
}

/// The lower case of an ASCII letter; any other character as it is.
pub open spec fn ascii_lower(c: char) -> char {
    if 'A' <= c <= 'Z' {
        (c as u32 + 32) as char
    } else {
        c
    }
}

/// `s` with its ASCII letters in lower case.
pub open spec fn ascii_lowered(s: Seq<char>) -> Seq<char> {
    s.map_values(|c: char| ascii_lower(c))
}

/// `s` with its ASCII letters in lower case.
pub fn ascii_lowercase(s: &str) -> (r: String)
    ensures
        r@ == ascii_lowered(s@),
{
    let text = chars_of(s);
    let mut out = String::new();
    let mut i: usize = 0;
    while i < text.len()
        invariant
            text@ == s@,
            i <= text.len(),
            out@ =~= ascii_lowered(s@).take(i as int),
        decreases text.len() - i,
    {
        let c: char = text[i];
        if 'A' <= c && c <= 'Z' {
            out.push((c as u8 + 32) as char);
        } else {
            out.push(c);
        }
        i += 1;
    }
    assert(out@ =~= ascii_lowered(s@));
    out
}

// ---------------------------------------------------------------------------
// Reading numbers
// ---------------------------------------------------------------------------

/// Whether `c` is one of the ten ASCII digits.
pub open spec fn is_digit(c: char) -> bool {
    '0' <= c <= '9'
}

/// Whether `s` is a non-empty run of ASCII digits.
pub open spec fn all_digits(s: Seq<char>) -> bool {
    s.len() > 0 && forall|i: int| 0 <= i < s.len() ==> is_digit(#[trigger] s[i])
}

/// The number that a run of digits writes in base ten.
pub open spec fn digits_value(s: Seq<char>) -> nat
    decreases s.len(),
{
    if s.len() == 0 {
        0
    } else {
        digits_value(s.drop_last()) * 10 + (s.last() as nat - 48) as nat
    }
}

/// The unsigned number that `s` writes: digits, after at most one plus sign.
pub open spec fn unsigned_value(s: Seq<char>) -> Option<nat> {
    let body = if s.len() > 0 && s[0] == '+' {
        s.skip(1)
    } else {
        s
    };
    if all_digits(body) {
        Some(digits_value(body))
    } else {
        None
    }
}

/// A longer run of digits writes no smaller number.
proof fn lemma_digits_grow(s: Seq<char>, n: int)
    requires
        0 <= n <= s.len(),
        forall|i: int| 0 <= i < s.len() ==> is_digit(#[trigger] s[i]),
    ensures
        digits_value(s.take(n)) <= digits_value(s),
    decreases s.len(),
{
    if n < s.len() {
        lemma_digits_grow(s.drop_last(), n);
        assert(s.drop_last().take(n) =~= s.take(n));
    } else {
        assert(s.take(n) =~= s);
    }
}

/// The unsigned number that `s` writes, where it is at most `max`.
pub fn parse_unsigned(s: &str, max: u64) -> (r: Option<u64>)
    ensures
        match unsigned_value(s@) {
            Some(n) => if n <= max {
                r == Some(n as u64)
            } else {
                r is None
            },
            None => r is None,
        },
{
    let text = chars_of(s);
    let mut from: usize = 0;
    if text.len() > 0 && text[0] == '+' {
        from = 1;
    }
    let ghost body = s@.skip(from as int);
    assert(s@.skip(0) =~= s@);
    if from == text.len() {
        return None;
    }
    let mut i: usize = from;
    while i < text.len()
        invariant
            text@ == s@,
            from <= i <= text.len(),
            body == s@.skip(from as int),
            unsigned_value(s@) is Some ==> all_digits(body),
            forall|j: int| 0 <= j < i - from ==> is_digit(#[trigger] body[j]),
        decreases text.len() - i,
    {
        let c: char = text[i];
        if !('0' <= c && c <= '9') {
            assert(body[i - from] == c);
            return None;
        }
        i += 1;
    }
    assert(all_digits(body));
    let mut value: u64 = 0;
    let mut k: usize = from;
    while k < text.len()
        invariant
            text@ == s@,
            from <= k <= text.len(),
            body == s@.skip(from as int),
            all_digits(body),
            unsigned_value(s@) == Some(digits_value(body)),
            value <= max,
            value == digits_value(body.take(k - from)),
        decreases text.len() - k,
    {
        assert(is_digit(body[k - from]));
        let d: u64 = text[k] as u64 - 48;
        let wide: u128 = value as u128 * 10 + d as u128;
        proof {
            assert(body[k - from] == text@[k as int]);
            assert(body.take(k - from + 1).drop_last() =~= body.take(k - from));
            assert(body.take(k - from + 1).last() == text@[k as int]);
            lemma_digits_grow(body, k - from + 1);
        }
        if wide > max as u128 {
            return None;
        }
        value = wide as u64;
        k += 1;
    }
    assert(body.take(body.len() as int) =~= body);
    Some(value)
}

// ---------------------------------------------------------------------------
// Laws
// ---------------------------------------------------------------------------

/// One more digit at the end of a number makes it ten times as large, plus the
/// digit; a single digit is its own value.
pub proof fn law_digits_are_read_in_base_ten(
    s: &str,
    longer: &str,
    c: char,
    max: u64,
    r: Option<u64>,
    after: Option<u64>,
)
    requires
        longer@ == s@.push(c),
        call_ensures(parse_unsigned, (s, max), r),
        call_ensures(parse_unsigned, (longer, max), after),
    ensures
        !('0' <= c <= '9') ==> after is None,
        s@.len() == 0 && '0' <= c <= '9' ==> (after is Some <==> c as int - 48 <= max) && (
        after matches Some(v) ==> v == c as int - 48),
        r is Some && '0' <= c <= '9' ==> (after is Some <==> r->0 * 10 + (c as int - 48) <= max) && (
        after matches Some(v) ==> v == r->0 * 10 + (c as int - 48)),
        after is Some && s@.len() > 0 && !(s@.len() == 1 && s@[0] == '+') ==> r is Some && r->0
            <= after->0,
{
    let t = longer@;
    let plus = s@.len() > 0 && s@[0] == '+';
    let body = if plus {
        s@.skip(1)
    } else {
        s@
    };
    let long_body = if t[0] == '+' {
        t.skip(1)
    } else {
        t
    };
    if s@.len() > 0 {
        assert(t[0] == s@[0]);
        assert(long_body =~= body.push(c));
        assert(long_body.drop_last() =~= body);
        assert(long_body.last() == c);
        if all_digits(body) && is_digit(c) {
            assert forall|i: int| 0 <= i < long_body.len() implies is_digit(
                #[trigger] long_body[i],
            ) by {
                if i < body.len() {
                    assert(long_body[i] == body[i]);
                }
            }
        }
        if all_digits(long_body) {
            assert(is_digit(long_body[long_body.len() - 1]));
            assert forall|i: int| 0 <= i < body.len() implies is_digit(#[trigger] body[i]) by {
                assert(is_digit(long_body[i]));
            }
        }
    } else if t[0] == '+' {
        assert(long_body.len() == 0);
    } else {
        assert(long_body =~= seq![c]);
        assert(seq![c].drop_last() =~= Seq::<char>::empty());
        assert(digits_value(Seq::<char>::empty()) == 0);
        assert(digits_value(long_body) == (c as nat - 48) as nat) by {
            assert(long_body.drop_last() =~= Seq::<char>::empty());
        }
        if all_digits(long_body) {
            assert(is_digit(long_body[0]));
        }
        if is_digit(c) {
            assert(all_digits(long_body));
        }
    }
}

/// A numeral in base ten is read as the number that it was written for.
proof fn lemma_decimal_value(n: nat)
    ensures
        digits_value(decimal(n)) == n,
        all_digits(decimal(n)),
    decreases n,
{
    lemma_numeral_chars(n, 10);
    let s = decimal(n);
    if n >= 10 {
        lemma_decimal_value(n / 10);
        assert(s.drop_last() =~= decimal(n / 10));
        assert(s.last() == digit_char(n % 10));
    } else {
        assert(s.drop_last() =~= Seq::<char>::empty());
        assert(digits_value(Seq::<char>::empty()) == 0);
        assert(s.last() == digit_char(n));
    }
}

/// A number that is written is read back as it was, where it is not too large.
pub proof fn law_written_number_is_read_back(
    n: u64,
    text: String,
    again: &str,
    max: u64,
    r: Option<u64>,
)
    requires
        call_ensures(decimal_u64, (n,), text),
        again@ == text@,
        call_ensures(parse_unsigned, (again, max), r),
    ensures
        n <= max ==> r == Some(n),
        n > max ==> r is None,
{
    lemma_decimal_value(n as nat);
    assert(is_digit(again@[0]));
}

/// A number in base sixteen is written digit by digit, the lowest one last, with
/// letters in lower case, and a negative one in base ten has its sign in front.
pub proof fn law_numbers_are_written_by_digits(
    n: u64,
    low: u64,
    high: u64,
    r: String,
    rest: String,
    signed: i64,
    shown: String,
    size: String,
)
    requires
        low < 16,
        n == high * 16 + low,
        call_ensures(hexadecimal_u64, (n,), r),
        call_ensures(hexadecimal_u64, (high,), rest),
        call_ensures(decimal_i64, (signed,), shown),
        signed > i64::MIN,
        call_ensures(decimal_u64, ((if signed < 0 { -signed } else { signed as int }) as u64,), size),
    ensures
        high > 0 ==> r@ == rest@.push("0123456789abcdef"@[low as int]),
        high == 0 ==> r@ == seq!["0123456789abcdef"@[low as int]],
        signed < 0 ==> shown@ == seq!['-'] + size@,
        signed >= 0 ==> shown@ == size@,
{
    reveal_strlit("0123456789abcdef");
    assert("0123456789abcdef"@[low as int] == digit_char(low as nat));
    assert((n as nat) / 16 == high && (n as nat) % 16 == low);
}

/// A text is filled up with zeros in front, to the width and no further.
pub proof fn law_padding_is_in_front(s: &str, width: usize, r: String)
    requires
        call_ensures(zero_pad, (s, width), r),
    ensures
        r@.len() == if s@.len() < width {
            width as nat
        } else {
            s@.len()
        },
        s@.is_suffix_of(r@),
        forall|i: int| 0 <= i < r@.len() - s@.len() ==> #[trigger] r@[i] == '0',
{
    assert(r@.subrange(r@.len() - s@.len(), r@.len() as int) =~= s@);
}

/// One text is found in another exactly where the other is made of something, the
/// text and something more; it is at the front, or at the end, exactly where
/// nothing stands before, or behind, it.
pub proof fn law_text_is_found_where_it_stands(
    s: &str,
    pat: &str,
    before: Seq<char>,
    behind: Seq<char>,
    found: bool,
    first: bool,
    last: bool,
)
    requires
        call_ensures(has, (s, pat), found),
        call_ensures(begins, (s, pat), first),
        call_ensures(ends, (s, pat), last),
    ensures
        s@ == before + pat@ + behind ==> found,
        s@ == pat@ + behind ==> first && found,
        s@ == before + pat@ ==> last && found,
        found ==> exists|i: int|
            0 <= i <= s@.len() - pat@.len() && #[trigger] s@.skip(i).take(pat@.len() as int)
                == pat@,
        first ==> s@ == pat@ + s@.skip(pat@.len() as int),
        last ==> s@ == s@.take(s@.len() - pat@.len()) + pat@,
{
    let n = pat@.len() as int;
    if s@ == before + pat@ + behind {
        let i = before.len() as int;
        assert(s@.subrange(i, i + n) =~= pat@);
        assert(occurs_at(s@, pat@, i));
    }
    if s@ == pat@ + behind {
        assert(s@.subrange(0, n) =~= pat@);
        assert(occurs_at(s@, pat@, 0));
    }
    if s@ == before + pat@ {
        let i = before.len() as int;
        assert(s@.subrange(i, i + n) =~= pat@);
        assert(occurs_at(s@, pat@, i));
    }
    if found {
        let i = choose|i: int| occurs_at(s@, pat@, i);
        assert(s@.skip(i).take(n) =~= s@.subrange(i, i + n));
    }
    if first {
        assert(s@ =~= pat@ + s@.skip(n));
    }
    if last {
        assert(s@ =~= s@.take(s@.len() - n) + pat@);
    }
}

/// What is cut off at an end can be put back, and nothing is cut off exactly where
/// it does not stand there. Where all copies are cut off at the end, none is left,
/// and one more copy makes no difference.
pub proof fn law_cut_text_can_be_put_back(
    s: &str,
    pat: &str,
    front: Option<String>,
    end: Option<String>,
    at_front: bool,
    at_end: bool,
    all: String,
    more: &str,
    all_of_more: String,
)
    requires
        pat@.len() > 0,
        more@ == s@ + pat@,
        call_ensures(strip_front, (s, pat), front),
        call_ensures(strip_end, (s, pat), end),
        call_ensures(begins, (s, pat), at_front),
        call_ensures(ends, (s, pat), at_end),
        call_ensures(strip_end_all, (s, pat), all),
        call_ensures(strip_end_all, (more, pat), all_of_more),
    ensures
        front is Some <==> at_front,
        front matches Some(rest) ==> s@ == pat@ + rest@,
        end is Some <==> at_end,
        end matches Some(rest) ==> s@ == rest@ + pat@,
        all_of_more@ == all@,
        !at_end ==> all@ == s@,
        all@.is_prefix_of(s@),
        !pat@.is_suffix_of(all@),
{
    let n = pat@.len() as int;
    if at_front {
        assert(s@ =~= pat@ + s@.skip(n));
    }
    if at_end {
        assert(s@ =~= s@.take(s@.len() - n) + pat@);
    }
    assert(more@.subrange(more@.len() - n, more@.len() as int) =~= pat@);
    assert(more@.take(more@.len() - n) =~= s@);
    lemma_without_trailing(s@, pat@);
}

/// Cutting off all copies leaves a prefix that does not end with one.
proof fn lemma_without_trailing(s: Seq<char>, pat: Seq<char>)
    requires
        pat.len() > 0,
    ensures
        without_trailing(s, pat).is_prefix_of(s),
        !pat.is_suffix_of(without_trailing(s, pat)),
    decreases s.len(),
{
    if pat.is_suffix_of(s) {
        let t = s.take(s.len() - pat.len());
        lemma_without_trailing(t, pat);
        let r = without_trailing(t, pat);
        assert(s.subrange(0, r.len() as int) =~= t.subrange(0, r.len() as int));
    }
}

/// The last place of a character is one where it stands, with none behind it;
/// there is no place exactly where the character does not occur.
pub proof fn law_last_place_is_the_last(s: &Vec<char>, c: char, r: Option<usize>)
    requires
        call_ensures(find_last, (s, c), r),
    ensures
        r is Some <==> s@.contains(c),
        r matches Some(p) ==> p < s@.len() && s@[p as int] == c && forall|j: int|
            p < j < s@.len() ==> #[trigger] s@[j] != c,
{
    lemma_last_pos(s@, c);
    if s@.contains(c) {
        let j = choose|j: int| 0 <= j < s@.len() && s@[j] == c;
        assert(s@[j] == c);
    }
}

/// The short form of an id is its beginning, of twelve characters where it has as
/// many.
pub proof fn law_short_id_is_a_beginning(id: &str, r: String)
    requires
        call_ensures(short_id, (id,), r),
    ensures
        r@.is_prefix_of(id@),
        r@.len() <= 12,
        r@.len() == 12 || r@ == id@,
{
    assert(r@ =~= id@.subrange(0, r@.len() as int));
}

/// White space is a tab, a line end, a space or one of the wider ones; no other
/// character below 128 is.
pub proof fn law_plain_characters_are_no_space(c: char, r: bool)
    requires
        call_ensures(space, (c,), r),
    ensures
        (c as u32) < 0x80 ==> (r <==> c == ' ' || '\t' <= c <= '\r'),
        r && c as u32 >= 0x80 ==> c as u32 == 0x85 || c as u32 == 0xA0 || c as u32 == 0x1680 || (
        0x2000 <= c as u32 <= 0x200A) || c as u32 == 0x2028 || c as u32 == 0x2029 || c as u32
            == 0x202F || c as u32 == 0x205F || c as u32 == 0x3000,
{
}

/// Removing white space at the end removes nothing else, and all of it.
proof fn lemma_trimmed_end_parts(s: Seq<char>)
    ensures
        trimmed_end(s).len() <= s.len(),
        s == trimmed_end(s) + s.skip(trimmed_end(s).len() as int),
        forall|i: int| trimmed_end(s).len() <= i < s.len() ==> is_space(#[trigger] s[i]),
        trimmed_end(s).len() > 0 ==> !is_space(trimmed_end(s).last()),
    decreases s.len(),
{
    if s.len() > 0 && is_space(s.last()) {
        let t = s.drop_last();
        lemma_trimmed_end_parts(t);
        let n = trimmed_end(s).len() as int;
        assert(t =~= trimmed_end(s) + t.skip(n));
        assert(s =~= trimmed_end(s) + s.skip(n)) by {
            assert forall|i: int| 0 <= i < n implies s[i] == trimmed_end(s)[i] by {
                assert(t[i] == (trimmed_end(s) + t.skip(n))[i]);
            }
        }
        assert forall|i: int| n <= i < s.len() implies is_space(#[trigger] s[i]) by {
            if i < t.len() {
                assert(t[i] == s[i]);
            }
        }
    } else {
        assert(s =~= s + s.skip(s.len() as int));
    }
}

/// Removing white space at the front removes nothing else, and all of it.
proof fn lemma_trimmed_start_parts(s: Seq<char>)
    ensures
        trimmed_start(s).len() <= s.len(),
        trimmed_start(s) == s.skip(s.len() - trimmed_start(s).len()),
        forall|i: int| 0 <= i < s.len() - trimmed_start(s).len() ==> is_space(#[trigger] s[i]),
        trimmed_start(s).len() > 0 ==> !is_space(trimmed_start(s)[0]),
    decreases s.len(),
{
    if s.len() > 0 && is_space(s[0]) {
        let t = s.skip(1);
        lemma_trimmed_start_parts(t);
        let n = trimmed_start(s).len() as int;
        assert(t.skip(t.len() - n) =~= s.skip(s.len() - n));
        assert forall|i: int| 0 <= i < s.len() - n implies is_space(#[trigger] s[i]) by {
            if i > 0 {
                assert(t[i - 1] == s[i]);
            }
        }
    } else {
        assert(s =~= s.skip(0));
    }
}

/// Trimming takes a stretch out of the text: only white space stands before and
/// behind it, and it neither begins nor ends with any.
pub proof fn law_trimming_removes_only_space(s: &str, r: String, end: String) -> (from: int)
    requires
        call_ensures(trim, (s,), r),
        call_ensures(trim_end, (s,), end),
    ensures
        0 <= from <= from + r@.len() <= s@.len(),
        r@ == s@.subrange(from, from + r@.len()),
        forall|i: int|
            0 <= i < from || from + r@.len() <= i < s@.len() ==> is_space(#[trigger] s@[i]),
        r@.len() > 0 ==> !is_space(r@[0]) && !is_space(r@.last()),
        end@.is_prefix_of(s@),
        end@.len() > 0 ==> !is_space(end@.last()),
        forall|i: int| end@.len() <= i < s@.len() ==> is_space(#[trigger] s@[i]),
{
    lemma_trimmed_end_parts(s@);
    let e = trimmed_end(s@);
    lemma_trimmed_start_parts(e);
    let from = e.len() - r@.len();
    assert(r@ == e.skip(from));
    assert(e =~= s@.subrange(0, e.len() as int));
    assert(r@ =~= s@.subrange(from, from + r@.len()));
    assert forall|i: int|
        0 <= i < from || from + r@.len() <= i < s@.len() implies is_space(#[trigger] s@[i]) by {
        if i < from {
            assert(e[i] == s@[i]);
        }
    }
    if r@.len() > 0 {
        assert(r@.last() == e.last());
    }
    from
}

/// A text's first line is what stands before its first line feed, without a
/// carriage return at its end; the others are the lines of what follows. Without a
/// line feed a text is one line, unless it is empty.
pub proof fn law_lines_end_at_line_feeds(
    s: &str,
    line: Seq<char>,
    rest: &str,
    r: Vec<String>,
    others: Vec<String>,
)
    requires
        call_ensures(lines_of, (s,), r),
        call_ensures(lines_of, (rest,), others),
        !line.contains('\n'),
    ensures
        s@ == line + seq!['\n'] + rest@ ==> strs(r@) == seq![
            if line.len() > 0 && line.last() == '\r' {
                line.drop_last()
            } else {
                line
            },
        ] + strs(others@),
        s@ == line && line.len() > 0 ==> strs(r@) == seq![line],
        s@.len() == 0 ==> r@.len() == 0,
{
    assert(strs(r@).len() == r@.len());
    assert forall|j: int| 0 <= j < line.len() implies line[j] != '\n' by {
        if line[j] == '\n' {
            assert(line.contains('\n'));
        }
    }
    if s@ == line + seq!['\n'] + rest@ {
        let p = line.len() as int;
        assert(s@[p] == '\n');
        assert forall|j: int| 0 <= j < p implies s@[j] != '\n' by {
            assert(s@[j] == line[j]);
        }
        lemma_first_pos_unique(s@, '\n', p);
        assert(s@.take(p) =~= line);
        assert(s@.skip(p + 1) =~= rest@);
    }
    if s@ == line {
        lemma_first_pos_unique(s@, '\n', line.len() as int);
    }
}

/// White space in front of a text changes none of its words, and its first word is
/// what stands before its first white space.
pub proof fn law_words_end_at_spaces(
    s: &str,
    c: char,
    word: Seq<char>,
    rest: &str,
    r: Vec<String>,
    others: Vec<String>,
)
    requires
        call_ensures(words_of, (s,), r),
        call_ensures(words_of, (rest,), others),
        forall|i: int| 0 <= i < word.len() ==> !is_space(#[trigger] word[i]),
        is_space(c),
    ensures
        s@.len() == 0 ==> r@.len() == 0,
        s@ == seq![c] + rest@ ==> strs(r@) == strs(others@),
        word.len() > 0 && s@ == word ==> strs(r@) == seq![word],
        word.len() > 0 && s@ == word + rest@ && rest@.len() > 0 && is_space(rest@[0]) ==> strs(r@)
            == seq![word] + strs(others@),
{
    assert(strs(r@).len() == r@.len());
    if s@.len() > 0 && s@ == seq![c] + rest@ {
        assert(s@[0] == c);
        assert(s@.skip(1) =~= rest@);
        assert(trimmed_start(s@) == trimmed_start(rest@));
    }
    if word.len() > 0 && s@ == word + rest@ && rest@.len() > 0 && is_space(rest@[0]) {
        assert(s@[0] == word[0]);
        lemma_first_space_after(s@, word.len() as int);
        assert(s@.take(word.len() as int) =~= word);
        assert(s@.skip(word.len() as int) =~= rest@);
    }
    if word.len() > 0 && s@ == word {
        lemma_first_space_after(s@, word.len() as int);
        assert(s@.take(word.len() as int) =~= word);
        assert(s@.skip(word.len() as int) =~= Seq::<char>::empty());
        assert(words(Seq::<char>::empty()) =~= seq![]);
        assert(seq![word] + Seq::<Seq<char>>::empty() =~= seq![word]);
    }
}

/// The first white space is where none stands before.
proof fn lemma_first_space_after(s: Seq<char>, n: int)
    requires
        0 <= n <= s.len(),
        forall|i: int| 0 <= i < n ==> !is_space(#[trigger] s[i]),
        n < s.len() ==> is_space(s[n]),
    ensures
        first_space(s) == n,
    decreases n,
{
    if n > 0 {
        assert(!is_space(s[0]));
        assert forall|i: int| 0 <= i < n - 1 implies !is_space(#[trigger] s.skip(1)[i]) by {
            assert(s.skip(1)[i] == s[i + 1]);
        }
        lemma_first_space_after(s.skip(1), n - 1);
    }
}

/// Lower case changes the capital letters of ASCII, each to the letter 32 places
/// further, and nothing else.
pub proof fn law_lower_case_changes_only_capitals(s: &str, r: String)
    requires
        call_ensures(ascii_lowercase, (s,), r),
    ensures
        r@.len() == s@.len(),
        forall|i: int|
            0 <= i < s@.len() ==> if 'A' <= s@[i] <= 'Z' {
                #[trigger] r@[i] as int == s@[i] as int + 32
            } else {
                r@[i] == s@[i]
            },
{
}

/// The first bytes of a text are its first bytes, or all of them where there are
/// no more.
pub proof fn law_first_bytes_are_kept(s: &str, n: usize, r: String)
    requires
        cuts_cleanly(s@, n as nat),
        call_ensures(first_bytes, (s, n), r),
    ensures
        encode_utf8(s@).len() <= n ==> r@ == s@,
        encode_utf8(s@).len() > n ==> encode_utf8(r@) == encode_utf8(s@).take(n as int),
{
    let bytes = encode_utf8(s@);
    if bytes.len() > n {
        encode_utf8_valid_utf8(s@);
        valid_utf8_split(bytes, n as int);
        assert(bytes.take(n as int) =~= bytes.subrange(0, n as int));
        decode_utf8_encode_utf8(bytes.take(n as int));
    }
}

} // verus!
