//! Amounts of CPU, memory and time as they are written in a manifest.
use vstd::prelude::*;
use crate::text::{all_digits, cat3, chars_of, contains, digits_value, find_from, first_pos, is_digit, lemma_first_pos_unique, occurs_at, parse_unsigned, string_of, strip_end, unsigned_value};

verus! {

/// `n` times `factor`, where `s` writes `n` and the product is an `i64`.
pub open spec fn scaled_value(s: Seq<char>, factor: nat) -> Option<int> {
    match unsigned_value(s) {
        Some(n) => if n * factor <= i64::MAX {
            Some((n * factor) as int)
        } else {
            None
        },
        None => None,
    }
}

/// Read a number and scale it.
fn parse_scaled(s: &str, factor: u64) -> (r: Option<i64>)
    requires
        1 <= factor <= i64::MAX,
    ensures
        match scaled_value(s@, factor as nat) {
            Some(v) => r == Some(v as i64),
            None => r is None,
        },
{
    let max: u64 = i64::MAX as u64;
    match parse_unsigned(s, max) {
        Some(n) => {
            assert(n as int * factor as int <= i64::MAX as int * i64::MAX as int) by (nonlinear_arith)
                requires
                    0 <= n <= i64::MAX,
                    0 <= factor <= i64::MAX,
            ;
            let wide: u128 = n as u128 * factor as u128;
            if wide <= max as u128 {
                Some(wide as i64)
            } else {
                None
            }
        },
        None => {
            proof {
                if let Some(n) = unsigned_value(s@) {
                    assert(n * factor >= n) by (nonlinear_arith)
                        requires
                            factor >= 1,
                            n >= 0,
                    ;
                }
            }
            None
        },
    }
}

/// Ten to the power of `n`.
pub open spec fn pow10(n: nat) -> nat
    decreases n,
{
    if n == 0 {
        1
    } else {
        10 * pow10((n - 1) as nat)
    }
}

/// The billionths that the digits behind a decimal point write.
pub open spec fn billionths(frac: Seq<char>) -> Option<nat> {
    if all_digits(frac) && frac.len() <= 9 {
        Some(digits_value(frac) * pow10((9 - frac.len()) as nat))
    } else {
        None
    }
}

/// An amount of CPU in billionths of a core: `500m` is half a core, as is
/// `0.5`; `2` is two cores.
pub open spec fn cpu_value(s: Seq<char>) -> Option<int> {
    let dot = first_pos(s, '.');
    if seq!['m'].is_suffix_of(s) {
        scaled_value(s.drop_last(), 1_000_000)
    } else if 0 <= dot < s.len() {
        match (scaled_value(s.take(dot), 1_000_000_000), billionths(s.skip(dot + 1))) {
            (Some(whole), Some(part)) => if whole + part <= i64::MAX {
                Some(whole + part)
            } else {
                None
            },
            _ => None,
        }
    } else {
        scaled_value(s, 1_000_000_000)
    }
}

/// The billionths that the digits behind a decimal point write.
fn parse_billionths(frac: &str) -> (r: Option<u64>)
    ensures
        match billionths(frac@) {
            Some(v) => r == Some(v as u64) && v < 1_000_000_000,
            None => r is None,
        },
{
    let text = chars_of(frac);
    if text.len() == 0 || text.len() > 9 {
        return None;
    }
    let mut i: usize = 0;
    let mut value: u64 = 0;
    assert(pow10(0) == 1);
    while i < text.len()
        invariant
            text@ == frac@,
            i <= text.len() <= 9,
            value == digits_value(frac@.take(i as int)),
            value < pow10(i as nat),
            pow10(i as nat) <= 1_000_000_000,
            forall|j: int| 0 <= j < i ==> is_digit(#[trigger] frac@[j]),
        decreases text.len() - i,
    {
        let c: char = text[i];
        if !('0' <= c && c <= '9') {
            return None;
        }
        assert(frac@.take(i + 1).drop_last() =~= frac@.take(i as int));
        proof {
            reveal_with_fuel(pow10, 10);
        }
        value = value * 10 + (c as u64 - 48);
        i += 1;
    }
    assert(frac@.take(frac@.len() as int) =~= frac@);
    let mut k: usize = text.len();
    let ghost n = frac@.len();
    let ghost digits = value as nat;
    assert(digits * pow10(0) == digits) by (nonlinear_arith)
        requires
            pow10(0) == 1,
    ;
    while k < 9
        invariant
            n <= k <= 9,
            1 <= n,
            digits == digits_value(frac@),
            value == digits * pow10((k - n) as nat),
            value < pow10(k as nat),
        decreases 9 - k,
    {
        proof {
            reveal_with_fuel(pow10, 10);
            let p = pow10((k - n) as nat);
            assert(pow10((k + 1 - n) as nat) == 10 * p);
            assert(digits * (10 * p) == 10 * (digits * p)) by (nonlinear_arith);
        }
        value = value * 10;
        k += 1;
    }
    proof {
        reveal_with_fuel(pow10, 10);
    }
    Some(value)
}

/// Read an amount of CPU in billionths of a core.
pub fn parse_cpu_string(s: &str) -> (r: Result<i64, String>)
    ensures
        match cpu_value(s@) {
            Some(v) => r == Ok::<i64, String>(v as i64),
            None => r matches Err(e) && e@ == "invalid cpu quantity '"@ + s@ + "'"@,
        },
{
    let text = chars_of(s);
    let n: usize = text.len();
    let mut value: Option<i64> = None;
    proof {
        if s@.len() > 0 {
            assert(seq!['m'].is_suffix_of(s@) <==> s@.last() == 'm') by {
                assert(s@.subrange(s@.len() - 1, s@.len() as int) =~= seq![s@.last()]);
                assert(seq![s@.last()][0] == s@.last());
                assert(seq!['m'][0] == 'm');
            }
        }
    }
    if n > 0 && text[n - 1] == 'm' {
        let body = string_of(&text, 0, n - 1);
        assert(body@ =~= s@.drop_last());
        value = parse_scaled(body.as_str(), 1_000_000);
    } else {
        assert(s@.skip(0) =~= s@);
        let dot: usize = find_from(&text, '.', 0);
        if dot < n {
            let whole_text = string_of(&text, 0, dot);
            let frac_text = string_of(&text, dot + 1, n);
            assert(whole_text@ =~= s@.take(dot as int));
            assert(frac_text@ =~= s@.skip(dot + 1));
            let whole = parse_scaled(whole_text.as_str(), 1_000_000_000);
            let part = parse_billionths(frac_text.as_str());
            if let Some(w) = whole {
                if let Some(p) = part {
                    if w <= i64::MAX - p as i64 {
                        value = Some(w + p as i64);
                    }
                }
            }
        } else {
            value = parse_scaled(s, 1_000_000_000);
        }
    }
    match value {
        Some(v) => Ok(v),
        None => Err(cat3("invalid cpu quantity '", s, "'")),
    }
}

/// The unit at the end of an amount of memory, in bytes, and the text before
/// it. Binary units have an `i`, decimal ones have none.
pub open spec fn memory_unit(s: Seq<char>) -> (Seq<char>, nat) {
    if "Ki"@.is_suffix_of(s) {
        (s.take(s.len() - 2), 1024)
    } else if "Mi"@.is_suffix_of(s) {
        (s.take(s.len() - 2), 1_048_576)
    } else if "Gi"@.is_suffix_of(s) {
        (s.take(s.len() - 2), 1_073_741_824)
    } else if "Ti"@.is_suffix_of(s) {
        (s.take(s.len() - 2), 1_099_511_627_776)
    } else if "K"@.is_suffix_of(s) {
        (s.take(s.len() - 1), 1000)
    } else if "M"@.is_suffix_of(s) {
        (s.take(s.len() - 1), 1_000_000)
    } else if "G"@.is_suffix_of(s) {
        (s.take(s.len() - 1), 1_000_000_000)
    } else if "T"@.is_suffix_of(s) {
        (s.take(s.len() - 1), 1_000_000_000_000)
    } else {
        (s, 1)
    }
}

/// An amount of memory in bytes.
pub open spec fn memory_value(s: Seq<char>) -> Option<int> {
    scaled_value(memory_unit(s).0, memory_unit(s).1)
}

/// Read an amount of memory in bytes.
pub fn parse_memory_string(s: &str) -> (r: Result<i64, String>)
    ensures
        match memory_value(s@) {
            Some(v) => r == Ok::<i64, String>(v as i64),
            None => r matches Err(e) && e@ == "invalid memory quantity '"@ + s@ + "'"@,
        },
{
    proof {
        reveal_strlit("Ki");
        reveal_strlit("Mi");
        reveal_strlit("Gi");
        reveal_strlit("Ti");
        reveal_strlit("K");
        reveal_strlit("M");
        reveal_strlit("G");
        reveal_strlit("T");
    }
    let (body, factor): (String, u64) = if let Some(b) = strip_end(s, "Ki") {
        (b, 1024)
    } else if let Some(b) = strip_end(s, "Mi") {
        (b, 1_048_576)
    } else if let Some(b) = strip_end(s, "Gi") {
        (b, 1_073_741_824)
    } else if let Some(b) = strip_end(s, "Ti") {
        (b, 1_099_511_627_776)
    } else if let Some(b) = strip_end(s, "K") {
        (b, 1000)
    } else if let Some(b) = strip_end(s, "M") {
        (b, 1_000_000)
    } else if let Some(b) = strip_end(s, "G") {
        (b, 1_000_000_000)
    } else if let Some(b) = strip_end(s, "T") {
        (b, 1_000_000_000_000)
    } else {
        (s.to_owned(), 1)
    };
    match parse_scaled(body.as_str(), factor) {
        Some(v) => Ok(v),
        None => Err(cat3("invalid memory quantity '", s, "'")),
    }
}

/// A span of time in nanoseconds: a number and one of the units `ms`, `s`, `m`
/// and `h`.
pub open spec fn duration_value(s: Seq<char>) -> Option<int> {
    if "ms"@.is_suffix_of(s) {
        scaled_value(s.take(s.len() - 2), 1_000_000)
    } else if "s"@.is_suffix_of(s) {
        scaled_value(s.take(s.len() - 1), 1_000_000_000)
    } else if "m"@.is_suffix_of(s) {
        scaled_value(s.take(s.len() - 1), 60_000_000_000)
    } else if "h"@.is_suffix_of(s) {
        scaled_value(s.take(s.len() - 1), 3_600_000_000_000)
    } else {
        None
    }
}

/// Read a span of time in nanoseconds.
pub fn parse_duration(s: &str) -> (r: Option<i64>)
    ensures
        match duration_value(s@) {
            Some(v) => r == Some(v as i64),
            None => r is None,
        },
{
    proof {
        reveal_strlit("ms");
        reveal_strlit("s");
        reveal_strlit("m");
        reveal_strlit("h");
    }
    if let Some(b) = strip_end(s, "ms") {
        parse_scaled(b.as_str(), 1_000_000)
    } else if let Some(b) = strip_end(s, "s") {
        parse_scaled(b.as_str(), 1_000_000_000)
    } else if let Some(b) = strip_end(s, "m") {
        parse_scaled(b.as_str(), 60_000_000_000)
    } else if let Some(b) = strip_end(s, "h") {
        parse_scaled(b.as_str(), 3_600_000_000_000)
    } else {
        None
    }
}

// ---------------------------------------------------------------------------
// Laws
// ---------------------------------------------------------------------------

/// A text ends with one character exactly where that is its last.
proof fn lemma_ends_with(s: Seq<char>, pat: Seq<char>)
    requires
        pat.len() == 1,
    ensures
        pat.is_suffix_of(s) <==> s.len() > 0 && s.last() == pat[0],
{
    if s.len() > 0 {
        let end = s.subrange(s.len() - 1, s.len() as int);
        assert(end[0] == s.last());
        if s.last() == pat[0] {
            assert(end =~= pat);
        }
    }
}

/// A text ends with two characters exactly where those are its last.
proof fn lemma_ends_with_two(s: Seq<char>, pat: Seq<char>)
    requires
        pat.len() == 2,
    ensures
        pat.is_suffix_of(s) <==> s.len() > 1 && s[s.len() - 2] == pat[0] && s.last() == pat[1],
{
    if s.len() > 1 {
        let end = s.subrange(s.len() - 2, s.len() as int);
        assert(end[0] == s[s.len() - 2]);
        assert(end[1] == s.last());
        if s[s.len() - 2] == pat[0] && s.last() == pat[1] {
            assert(end =~= pat);
        }
    }
}

/// The characters of a number are digits, but for a plus sign in front.
proof fn lemma_number_chars(s: Seq<char>)
    requires
        unsigned_value(s) is Some,
    ensures
        s.len() > 0,
        is_digit(s.last()),
        forall|i: int| 0 <= i < s.len() ==> is_digit(#[trigger] s[i]) || s[i] == '+',
        first_pos(s, '.') == s.len(),
{
    let body = if s[0] == '+' {
        s.skip(1)
    } else {
        s
    };
    assert(s.len() > 0);
    assert(is_digit(body[body.len() - 1]));
    assert forall|i: int| 0 <= i < s.len() implies is_digit(#[trigger] s[i]) || s[i] == '+' by {
        if s[0] == '+' {
            if i > 0 {
                assert(is_digit(body[i - 1]));
            }
        } else {
            assert(is_digit(body[i]));
        }
    }
    lemma_first_pos_unique(s, '.', s.len() as int);
}

/// A plain number is whole cores and one before an `m` is thousandths of a core:
/// as text it is the same number, in billionths a thousand times as much. What is
/// no number, or too much, is refused.
pub proof fn law_millicores_are_thousandths(
    s: &str,
    thousandths: &str,
    number: Option<u64>,
    cores: Result<i64, String>,
    part: Result<i64, String>,
)
    requires
        thousandths@ == s@.push('m'),
        call_ensures(parse_unsigned, (s, i64::MAX as u64), number),
        call_ensures(parse_cpu_string, (s,), cores),
        call_ensures(parse_cpu_string, (thousandths,), part),
    ensures
        number matches Some(n) ==> {
            &&& cores is Ok <==> n * 1_000_000_000 <= i64::MAX
            &&& cores matches Ok(v) ==> v == n * 1_000_000_000
            &&& part is Ok <==> n * 1_000_000 <= i64::MAX
            &&& part matches Ok(v) ==> v == n * 1_000_000
            &&& cores is Ok ==> part is Ok && cores->Ok_0 == 1000 * part->Ok_0
        },
        number is None ==> part is Err,
        part matches Err(e) ==> contains(e@, thousandths@),
{
    let t = thousandths@;
    assert(seq!['m'][0] == 'm');
    lemma_ends_with(t, seq!['m']);
    lemma_ends_with(s@, seq!['m']);
    assert(t.drop_last() =~= s@);
    if number is Some {
        lemma_number_chars(s@);
    }
    if part is Err {
        let whole = "invalid cpu quantity '"@ + t + "'"@;
        let k = "invalid cpu quantity '"@.len() as int;
        assert(whole.subrange(k, k + t.len()) =~= t);
        assert(occurs_at(whole, t, k));
    }
}

/// A further digit behind the decimal point adds that many of the next smaller
/// share of a core: the first one tenths, the ninth one billionths, and there is
/// no tenth. A zero adds nothing.
pub proof fn law_fraction_is_read_digit_by_digit(
    whole: Seq<char>,
    frac: Seq<char>,
    share: int,
    d: char,
    s: &str,
    longer: &str,
    r: Result<i64, String>,
    after: Result<i64, String>,
)
    requires
        ({
            ||| frac.len() == 1 && share == 10_000_000
            ||| frac.len() == 2 && share == 1_000_000
            ||| frac.len() == 3 && share == 100_000
            ||| frac.len() == 4 && share == 10_000
            ||| frac.len() == 5 && share == 1000
            ||| frac.len() == 6 && share == 100
            ||| frac.len() == 7 && share == 10
            ||| frac.len() == 8 && share == 1
            ||| frac.len() == 0 || frac.len() >= 9
        }),
        !whole.contains('.'),
        s@ == whole + seq!['.'] + frac,
        longer@ == s@.push(d),
        '0' <= d <= '9',
        call_ensures(parse_cpu_string, (s,), r),
        call_ensures(parse_cpu_string, (longer,), after),
    ensures
        frac.len() >= 9 ==> after is Err,
        frac.len() == 0 ==> r is Err,
        frac.len() < 9 ==> (r matches Ok(v) ==> {
            let step = (d as int - 48) * share;
            &&& after is Ok <==> v + step <= i64::MAX
            &&& after matches Ok(w) ==> w == v + step
        }),
{
    let t = longer@;
    let p = whole.len() as int;
    assert(s@[p] == '.');
    assert(t[p] == '.');
    assert forall|j: int| 0 <= j < p implies s@[j] != '.' && t[j] != '.' by {
        assert(s@[j] == whole[j]);
        assert(t[j] == whole[j]);
        if whole[j] == '.' {
            assert(whole.contains('.'));
        }
    }
    lemma_first_pos_unique(s@, '.', p);
    lemma_first_pos_unique(t, '.', p);
    assert(s@.take(p) =~= whole);
    assert(t.take(p) =~= whole);
    assert(s@.skip(p + 1) =~= frac);
    assert(t.skip(p + 1) =~= frac.push(d));
    assert(seq!['m'][0] == 'm');
    lemma_ends_with(t, seq!['m']);
    lemma_ends_with(s@, seq!['m']);
    assert(t.last() == d);
    if seq!['m'].is_suffix_of(s@) && scaled_value(s@.drop_last(), 1_000_000) is Some {
        lemma_number_chars(s@.drop_last());
        assert(s@.drop_last()[p] == '.');
    }
    if r is Ok && frac.len() < 9 {
        assert(!seq!['m'].is_suffix_of(s@));
        assert(billionths(frac) is Some);
        let long = frac.push(d);
        assert forall|i: int| 0 <= i < long.len() implies is_digit(#[trigger] long[i]) by {
            if i < frac.len() {
                assert(long[i] == frac[i]);
            }
        }
        assert(all_digits(long));
        assert(long.drop_last() =~= frac);
        let k = (8 - frac.len()) as nat;
        let q = pow10(k);
        reveal_with_fuel(pow10, 10);
        assert(frac.len() > 0);
        assert(q == share);
        assert(pow10((9 - frac.len()) as nat) == 10 * q);
        let a = digits_value(frac);
        let b = (d as nat - 48) as nat;
        assert((a * 10 + b) * q == a * (10 * q) + b * q) by (nonlinear_arith);
    }
    if frac.len() == 0 {
        assert(!all_digits(frac));
    }
}

/// One digit behind the decimal point is tenths of a core, beside the whole cores
/// before it.
pub proof fn law_first_fraction_digit_is_tenths(
    whole: &str,
    d: char,
    s: &str,
    number: Option<u64>,
    r: Result<i64, String>,
)
    requires
        s@ == whole@ + seq!['.', d],
        '0' <= d <= '9',
        call_ensures(parse_unsigned, (whole, i64::MAX as u64), number),
        call_ensures(parse_cpu_string, (s,), r),
    ensures
        number matches Some(n) ==> {
            let value = n * 1_000_000_000 + (d as int - 48) * 100_000_000;
            &&& r is Ok <==> value <= i64::MAX
            &&& r matches Ok(v) ==> v == value
        },
{
    if number is Some {
        let w = whole@;
        let p = w.len() as int;
        lemma_number_chars(w);
        assert(s@[p] == '.');
        assert forall|j: int| 0 <= j < p implies s@[j] != '.' by {
            assert(s@[j] == w[j]);
        }
        lemma_first_pos_unique(s@, '.', p);
        assert(s@.take(p) =~= w);
        assert(s@.skip(p + 1) =~= seq![d]);
        assert(seq!['m'][0] == 'm');
        lemma_ends_with(s@, seq!['m']);
        assert(s@.last() == d);
        let frac = seq![d];
        assert(frac[0] == d);
        assert(all_digits(frac));
        assert(frac.drop_last() =~= Seq::<char>::empty());
        assert(digits_value(Seq::<char>::empty()) == 0);
        reveal_with_fuel(pow10, 10);
        assert(pow10(8) == 100_000_000);
    }
}

/// An amount of memory is the number before its unit, times the unit: 1024 and its
/// powers with an `i`, 1000 and its powers without, one byte where there is none.
/// What is no number, or too much, is refused.
pub proof fn law_memory_is_number_times_unit(
    s: &str,
    unit: &str,
    factor: int,
    text: &str,
    number: Option<u64>,
    r: Result<i64, String>,
)
    requires
        text@ == s@ + unit@,
        call_ensures(parse_unsigned, (s, i64::MAX as u64), number),
        call_ensures(parse_memory_string, (text,), r),
        ({
            ||| unit@.len() == 0 && factor == 1
            ||| unit@ == "Ki"@ && factor == 1024
            ||| unit@ == "Mi"@ && factor == 1024 * 1024
            ||| unit@ == "Gi"@ && factor == 1024 * 1024 * 1024
            ||| unit@ == "Ti"@ && factor == 1024 * 1024 * 1024 * 1024
            ||| unit@ == "K"@ && factor == 1000
            ||| unit@ == "M"@ && factor == 1000 * 1000
            ||| unit@ == "G"@ && factor == 1000 * 1000 * 1000
            ||| unit@ == "T"@ && factor == 1000 * 1000 * 1000 * 1000
        }),
    ensures
        number matches Some(n) ==> {
            &&& r is Ok <==> n * factor <= i64::MAX
            &&& r matches Ok(v) ==> v == n * factor
        },
        number is None && unit@.len() > 0 ==> r is Err,
        r matches Err(e) ==> contains(e@, text@),
{
    reveal_strlit("Ki");
    reveal_strlit("Mi");
    reveal_strlit("Gi");
    reveal_strlit("Ti");
    reveal_strlit("K");
    reveal_strlit("M");
    reveal_strlit("G");
    reveal_strlit("T");
    let t = text@;
    lemma_ends_with_two(t, "Ki"@);
    lemma_ends_with_two(t, "Mi"@);
    lemma_ends_with_two(t, "Gi"@);
    lemma_ends_with_two(t, "Ti"@);
    lemma_ends_with(t, "K"@);
    lemma_ends_with(t, "M"@);
    lemma_ends_with(t, "G"@);
    lemma_ends_with(t, "T"@);
    if number is Some {
        lemma_number_chars(s@);
    }
    if unit@.len() == 0 {
        assert(t =~= s@);
    } else {
        assert(t.last() == unit@.last());
        assert(unit@.len() == 2 ==> t[t.len() - 2] == unit@[0]);
        assert(t.take(t.len() - unit@.len()) =~= s@);
        assert(memory_unit(t).0 =~= s@);
        assert(memory_unit(t).1 == factor);
        if number is None {
            if let Some(n) = unsigned_value(s@) {
                assert(n * factor >= n) by (nonlinear_arith)
                    requires
                        factor >= 1,
                        n >= 0,
                ;
            }
        }
    }
    if r is Err {
        let whole = "invalid memory quantity '"@ + t + "'"@;
        let k = "invalid memory quantity '"@.len() as int;
        assert(whole.subrange(k, k + t.len()) =~= t);
        assert(occurs_at(whole, t, k));
    }
}

/// A span of time is the number before its unit, times the unit; an hour is sixty
/// minutes, a minute sixty seconds and a second a thousand milliseconds. Without a
/// unit there is no span.
pub proof fn law_duration_is_number_times_unit(
    s: &str,
    unit: &str,
    factor: int,
    text: &str,
    number: Option<u64>,
    r: Option<i64>,
    bare: Option<i64>,
)
    requires
        text@ == s@ + unit@,
        call_ensures(parse_unsigned, (s, i64::MAX as u64), number),
        call_ensures(parse_duration, (text,), r),
        call_ensures(parse_duration, (s,), bare),
        ({
            ||| unit@ == "ms"@ && factor == 1_000_000
            ||| unit@ == "s"@ && factor == 1000 * 1_000_000
            ||| unit@ == "m"@ && factor == 60 * 1000 * 1_000_000
            ||| unit@ == "h"@ && factor == 60 * 60 * 1000 * 1_000_000
        }),
    ensures
        number matches Some(n) ==> {
            &&& r is Some <==> n * factor <= i64::MAX
            &&& r matches Some(v) ==> v == n * factor
            &&& bare is None
        },
        number is None && !(unit@ == "s"@ && s@.len() > 0 && s@.last() == 'm') ==> r is None,
{
    reveal_strlit("ms");
    reveal_strlit("s");
    reveal_strlit("m");
    reveal_strlit("h");
    let t = text@;
    lemma_ends_with_two(t, "ms"@);
    lemma_ends_with(t, "s"@);
    lemma_ends_with(t, "m"@);
    lemma_ends_with(t, "h"@);
    lemma_ends_with_two(s@, "ms"@);
    lemma_ends_with(s@, "s"@);
    lemma_ends_with(s@, "m"@);
    lemma_ends_with(s@, "h"@);
    if number is Some {
        lemma_number_chars(s@);
    }
    assert(t.last() == unit@.last());
    assert(t.take(t.len() - unit@.len()) =~= s@);
    assert(unit@.len() == 2 ==> t[t.len() - 2] == unit@[0]);
    assert(unit@.len() == 1 && s@.len() > 0 ==> t[t.len() - 2] == s@.last());
    if number is None {
        if let Some(n) = unsigned_value(s@) {
            assert(n * factor >= n) by (nonlinear_arith)
                requires
                    factor >= 1,
                    n >= 0,
            ;
        }
    }
}

} // verus!
