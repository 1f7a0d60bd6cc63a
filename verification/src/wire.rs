//! The wire format of protocol buffers, as far as it is read here: numbers,
//! keys and the lengths of fields.
use vstd::prelude::*;
use crate::text::power;

verus! {

/// How a field's value is written.
#[derive(Clone, Copy, Debug, PartialEq, Eq, Structural)]
pub enum Wire {
    Varint,
    SixtyFourBit,
    LengthDelimited,
    StartGroup,
    EndGroup,
    ThirtyTwoBit,
}

/// How many bytes stand up to the first one without its high bit, that one
/// included; zero where there is none.
pub open spec fn varint_end(bytes: Seq<u8>) -> int
    decreases bytes.len(),
{
    if bytes.len() == 0 {
        0
    } else if bytes[0] < 128 {
        1
    } else if varint_end(bytes.skip(1)) == 0 {
        0
    } else {
        varint_end(bytes.skip(1)) + 1
    }
}

/// The number that the low seven bits of the first `n` bytes write, the lowest
/// first.
pub open spec fn varint_value(bytes: Seq<u8>, n: nat) -> nat
    decreases n,
{
    if n == 0 || bytes.len() == 0 {
        0
    } else {
        (bytes[0] % 128) as nat + 128 * varint_value(bytes.skip(1), (n - 1) as nat)
    }
}

/// The number at the front of some bytes and how many bytes it takes: at most
/// ten, and no more than 64 bits.
pub open spec fn varint(bytes: Seq<u8>) -> Option<(u64, int)> {
    let n = varint_end(bytes);
    if 1 <= n <= 10 && (n == 10 ==> bytes[9] < 2) {
        Some((varint_value(bytes, n as nat) as u64, n))
    } else {
        None
    }
}

/// The wire type with a number.
pub open spec fn wire_numbered(n: nat) -> Option<Wire> {
    if n == 0 {
        Some(Wire::Varint)
    } else if n == 1 {
        Some(Wire::SixtyFourBit)
    } else if n == 2 {
        Some(Wire::LengthDelimited)
    } else if n == 3 {
        Some(Wire::StartGroup)
    } else if n == 4 {
        Some(Wire::EndGroup)
    } else if n == 5 {
        Some(Wire::ThirtyTwoBit)
    } else {
        None
    }
}

/// The tag and the wire type at the front of some bytes, and how many bytes
/// they take.
pub open spec fn field_key(bytes: Seq<u8>) -> Option<(u32, Wire, int)> {
    match varint(bytes) {
        Some(v) => if v.0 <= u32::MAX && v.0 >= 8 && wire_numbered((v.0 % 8) as nat) is Some {
            Some(((v.0 / 8) as u32, wire_numbered((v.0 % 8) as nat)->0, v.1))
        } else {
            None
        },
        None => None,
    }
}

/// What is left of some bytes behind a field's value that is no group.
pub open spec fn plain_skipped(wire: Wire, bytes: Seq<u8>) -> Option<Seq<u8>> {
    match wire {
        Wire::Varint => match varint(bytes) {
            Some(v) => Some(bytes.skip(v.1)),
            None => None,
        },
        Wire::SixtyFourBit => if bytes.len() >= 8 {
            Some(bytes.skip(8))
        } else {
            None
        },
        Wire::ThirtyTwoBit => if bytes.len() >= 4 {
            Some(bytes.skip(4))
        } else {
            None
        },
        Wire::LengthDelimited => match varint(bytes) {
            Some(v) => if v.0 <= bytes.len() - v.1 {
                Some(bytes.skip(v.1 + v.0))
            } else {
                None
            },
            None => None,
        },
        Wire::StartGroup => None,
        Wire::EndGroup => None,
    }
}

/// The contents of an optional slice.
pub open spec fn opt_bytes(o: Option<&[u8]>) -> Option<Seq<u8>> {
    match o {
        Some(s) => Some(s@),
        None => None,
    }
}

/// A number takes at least one byte and no more than there are.
pub proof fn lemma_varint_end(bytes: Seq<u8>)
    ensures
        0 <= varint_end(bytes) <= bytes.len(),
    decreases bytes.len(),
{
    if bytes.len() > 0 {
        lemma_varint_end(bytes.skip(1));
    }
}

/// How a number is written: seven bits to a byte, the lowest first, with the
/// high bit set in all but the last.
pub open spec fn encoded(n: nat) -> Seq<u8>
    decreases n,
{
    if n < 128 {
        seq![n as u8]
    } else {
        seq![(128 + n % 128) as u8] + encoded(n / 128)
    }
}

/// How a field with a number is written.
pub open spec fn number_field(tag: u32, n: u64) -> Seq<u8> {
    encoded((tag * 8) as nat) + encoded(n as nat)
}

/// How a field with some bytes is written.
pub open spec fn bytes_field(tag: u32, payload: Seq<u8>) -> Seq<u8> {
    encoded((tag * 8 + 2) as nat) + encoded(payload.len()) + payload
}

/// A number that is written ends where it should, and has its value there.
proof fn lemma_encoded_value(n: nat, rest: Seq<u8>)
    ensures
        encoded(n).len() >= 1,
        varint_end(encoded(n) + rest) == encoded(n).len(),
        varint_value(encoded(n) + rest, encoded(n).len()) == n,
    decreases n,
{
    let all = encoded(n) + rest;
    if n < 128 {
        assert(varint_value(all.skip(1), 0) == 0);
        assert(all[0] == n as u8);
    } else {
        lemma_encoded_value(n / 128, rest);
        assert(all.skip(1) =~= encoded(n / 128) + rest);
        assert(all[0] == (128 + n % 128) as u8);
        assert((all[0] % 128) as nat == n % 128);
    }
}

/// A number below `2 * 128^k` takes at most `k + 1` bytes, and the last of so
/// many is below two.
proof fn lemma_encoded_len(n: nat, k: nat)
    requires
        n < 2 * power(128, k),
    ensures
        1 <= encoded(n).len() <= k + 1,
        encoded(n).len() == k + 1 ==> encoded(n)[k as int] < 2,
    decreases k,
{
    if k > 0 && n >= 128 {
        assert(n / 128 < 2 * power(128, (k - 1) as nat)) by (nonlinear_arith)
            requires
                n < 2 * power(128, k),
                power(128, k) == 128 * power(128, (k - 1) as nat),
        ;
        lemma_encoded_len(n / 128, (k - 1) as nat);
        if encoded(n).len() == k + 1 {
            assert(encoded(n)[k as int] == encoded(n / 128)[k - 1]);
        }
    }
}

/// Every number that is written is read back, with what stands behind it.
pub proof fn law_number_reads_back(n: u64, rest: Seq<u8>)
    ensures
        varint(encoded(n as nat) + rest) == Some((n, encoded(n as nat).len() as int)),
{
    let bytes = encoded(n as nat);
    assert(power(128, 9) == 0x8000_0000_0000_0000) by {
        reveal_with_fuel(power, 10);
    }
    lemma_encoded_value(n as nat, rest);
    lemma_encoded_len(n as nat, 9);
    if bytes.len() == 10 {
        assert((bytes + rest)[9] == bytes[9]);
    }
}

/// Every key that is written is read back.
pub proof fn law_key_reads_back(tag: u32, wire: nat, rest: Seq<u8>)
    requires
        1 <= tag < 0x2000_0000,
        wire <= 5,
    ensures
        field_key(encoded((tag * 8 + wire) as nat) + rest) == Some(
            (tag, wire_numbered(wire)->0, encoded((tag * 8 + wire) as nat).len() as int),
        ),
{
    let n = (tag * 8 + wire) as u64;
    law_number_reads_back(n, rest);
    assert(n % 8 == wire && n / 8 == tag);
}

} // verus!
