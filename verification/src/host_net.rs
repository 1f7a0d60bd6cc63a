//! Host networking of virtual machines. Every instance is given a /30 subnet
//! under `10.42.0.0/16`, a tap interface name, two addresses and a MAC address,
//! all of them functions of the instance's id: they are the same after a
//! restart, with nothing stored.
use vstd::prelude::*;
use vstd::utf8::{encode_utf8, is_ascii_chars, is_ascii_chars_encode_utf8};
use crate::text::{cat2, cat4, cat6, decimal, decimal_u64, hexadecimal, hexadecimal_u64, is_digit, lemma_encode_concat, lemma_numeral_chars, lemma_numeral_injective, lemma_numeral_len, numeral, power, zero_pad, zero_padded};

verus! {

/// The network parameters of one instance.
#[derive(Debug)]
pub struct InstanceNet {
    /// The interface name on the host, at most 15 characters long.
    pub tap_name: String,
    /// The address of the host's side, the guest's gateway.
    pub host_ip: String,
    /// The address that the guest configures.
    pub guest_ip: String,
    pub netmask: String,
    pub prefix_len: u8,
    /// A locally administered unicast address.
    pub mac: String,
}

/// FNV-1a over 64 bits.
pub open spec fn fnv(bytes: Seq<u8>) -> u64
    decreases bytes.len(),
{
    if bytes.len() == 0 {
        0xcbf29ce484222325
    } else {
        (fnv(bytes.drop_last()) ^ (bytes.last() as u64)).wrapping_mul(0x100000001b3)
    }
}

/// FNV-1a over the bytes of a string.
pub fn stable_hash(s: &str) -> (h: u64)
    ensures
        h == fnv(encode_utf8(s@)),
{
    let bytes = s.as_bytes();
    let mut h: u64 = 0xcbf29ce484222325;
    let mut i: usize = 0;
    while i < bytes.len()
        invariant
            i <= bytes.len(),
            h == fnv(bytes@.take(i as int)),
        decreases bytes.len() - i,
    {
        assert(bytes@.take(i + 1).drop_last() =~= bytes@.take(i as int));
        h = (h ^ (bytes[i] as u64)).wrapping_mul(0x100000001b3);
        i += 1;
    }
    assert(bytes@.take(bytes@.len() as int) =~= encode_utf8(s@));
    h
}

/// Which of the 16384 subnets an instance is given.
pub open spec fn subnet_slot(id: Seq<char>) -> nat {
    (fnv(encode_utf8(id)) % 16384) as nat
}

/// The address with number `host` in subnet `slot`.
pub open spec fn slot_ip(slot: nat, host: nat) -> Seq<char> {
    "10.42."@ + decimal(slot / 64) + "."@ + decimal((slot % 64) * 4 + host)
}

/// The interface name of subnet `slot`.
pub open spec fn slot_tap(slot: nat) -> Seq<char> {
    "ring-"@ + hexadecimal(slot)
}

/// Byte `k` of a number, from the lowest up, as two hexadecimal digits.
pub open spec fn byte_hex(h: u64, k: nat) -> Seq<char> {
    zero_padded(hexadecimal(((h as nat) / power(256, k)) % 256), 2)
}

/// The MAC address that the low five bytes of a hash make.
pub open spec fn hash_mac(h: u64) -> Seq<char> {
    "02:"@ + byte_hex(h, 4) + ":"@ + byte_hex(h, 3) + ":"@ + byte_hex(h, 2) + ":"@ + byte_hex(h, 1)
        + ":"@ + byte_hex(h, 0)
}

/// One byte as two hexadecimal digits.
fn two_digits(b: u64) -> (r: String)
    ensures
        r@ == zero_padded(hexadecimal(b as nat), 2),
{
    zero_pad(hexadecimal_u64(b).as_str(), 2)
}

/// The address with number `host` in subnet `slot`.
fn ip_text(slot: u64, host: u64) -> (r: String)
    requires
        slot < 16384,
        host < 4,
    ensures
        r@ == slot_ip(slot as nat, host as nat),
{
    let third = decimal_u64(slot / 64);
    let fourth = decimal_u64((slot % 64) * 4 + host);
    cat4("10.42.", third.as_str(), ".", fourth.as_str())
}

/// The MAC address that the low five bytes of a hash make.
fn mac_text(h: u64) -> (r: String)
    ensures
        r@ == hash_mac(h),
{
    proof {
        reveal_with_fuel(power, 5);
        assert(power(256, 0) == 1);
        assert(power(256, 1) == 0x100);
        assert(power(256, 2) == 0x10000);
        assert(power(256, 3) == 0x1000000);
        assert(power(256, 4) == 0x100000000);
    }
    let b4 = two_digits((h / 0x100000000) % 256);
    let b3 = two_digits((h / 0x1000000) % 256);
    let b2 = two_digits((h / 0x10000) % 256);
    let b1 = two_digits((h / 0x100) % 256);
    let b0 = two_digits(h % 256);
    let mut s = cat6("02:", b4.as_str(), ":", b3.as_str(), ":", b2.as_str());
    s.append(":");
    s.append(b1.as_str());
    s.append(":");
    s.append(b0.as_str());
    s
}

impl InstanceNet {
    /// The network parameters of the instance with this id.
    pub fn for_instance(instance_id: &str) -> (r: Self)
        ensures
            r.tap_name@ == slot_tap(subnet_slot(instance_id@)),
            r.host_ip@ == slot_ip(subnet_slot(instance_id@), 1),
            r.guest_ip@ == slot_ip(subnet_slot(instance_id@), 2),
            r.netmask@ == "255.255.255.252"@,
            r.prefix_len == 30,
            r.mac@ == hash_mac(fnv(encode_utf8(instance_id@))),
    {
        let h: u64 = stable_hash(instance_id);
        let slot: u64 = h % 16384;
        let number = hexadecimal_u64(slot);
        InstanceNet {
            tap_name: cat2("ring-", number.as_str()),
            host_ip: ip_text(slot, 1),
            guest_ip: ip_text(slot, 2),
            netmask: "255.255.255.252".to_owned(),
            prefix_len: 30,
            mac: mac_text(h),
        }
    }
}

/// The context id of an instance's socket device.
pub open spec fn guest_cid(id: Seq<char>) -> int {
    3 + fnv(encode_utf8(id)) % 0xffff_fffc
}

/// The context id of an instance's socket device: at least 3, since the lower
/// ones are reserved, and never the wildcard.
pub fn cid_for_instance(instance_id: &str) -> (r: u32)
    ensures
        r == guest_cid(instance_id@),
        3 <= r < u32::MAX,
{
    let h: u64 = stable_hash(instance_id);
    (3 + h % 0xffff_fffc) as u32
}

// ---------------------------------------------------------------------------
// Laws
// ---------------------------------------------------------------------------

/// A zero-padded byte has two characters.
proof fn lemma_two_digits(b: nat)
    requires
        b < 256,
    ensures
        zero_padded(hexadecimal(b), 2).len() == 2,
{
    reveal_with_fuel(power, 3);
    assert(power(16, 2) == 256);
    lemma_numeral_len(b, 16, 2);
    lemma_numeral_chars(b, 16);
}

/// Every interface name fits into the kernel's 15 characters.
pub proof fn law_tap_name_fits(id: Seq<char>)
    ensures
        slot_tap(subnet_slot(id)).len() <= 15,
{
    reveal_strlit("ring-");
    reveal_with_fuel(power, 5);
    assert(power(16, 4) == 65536);
    lemma_numeral_len(subnet_slot(id), 16, 4);
}

/// Every MAC address has 17 characters, and its first byte says that it is
/// locally administered and unicast.
pub proof fn law_mac_is_local_unicast(h: u64)
    ensures
        hash_mac(h).len() == 17,
        hash_mac(h).take(3) == "02:"@,
{
    reveal_strlit("02:");
    reveal_strlit(":");
    reveal_with_fuel(power, 5);
    lemma_two_digits(((h as nat) / power(256, 0)) % 256);
    lemma_two_digits(((h as nat) / power(256, 1)) % 256);
    lemma_two_digits(((h as nat) / power(256, 2)) % 256);
    lemma_two_digits(((h as nat) / power(256, 3)) % 256);
    lemma_two_digits(((h as nat) / power(256, 4)) % 256);
    assert(hash_mac(h).take(3) =~= "02:"@);
}

/// The last number of an instance's host address is one above a multiple of
/// four and below 256, and that of its guest address is the next one: both lie
/// in one /30 subnet.
pub proof fn law_addresses_share_a_subnet(id: Seq<char>)
    ensures
        ({
            let slot = subnet_slot(id);
            let base = (slot % 64) * 4;
            &&& base % 4 == 0 && base + 2 < 256 && slot / 64 < 256
            &&& slot_ip(slot, 1) == "10.42."@ + decimal(slot / 64) + "."@ + decimal(base + 1)
            &&& slot_ip(slot, 2) == "10.42."@ + decimal(slot / 64) + "."@ + decimal(base + 2)
        }),
{
}

/// Two instances share an interface name exactly where they were given the same
/// subnet.
pub proof fn law_tap_names_tell_subnets_apart(a: Seq<char>, b: Seq<char>)
    ensures
        slot_tap(subnet_slot(a)) == slot_tap(subnet_slot(b)) <==> subnet_slot(a) == subnet_slot(b),
{
    reveal_strlit("ring-");
    let sa = subnet_slot(a);
    let sb = subnet_slot(b);
    if slot_tap(sa) == slot_tap(sb) {
        assert(slot_tap(sa).skip(5) =~= hexadecimal(sa));
        assert(slot_tap(sb).skip(5) =~= hexadecimal(sb));
        lemma_numeral_injective(sa, sb, 16);
    }
}

/// Two numerals and the dot between them are told apart by the dot.
proof fn lemma_dotted(a: nat, b: nat, c: nat, d: nat)
    requires
        decimal(a) + "."@ + decimal(b) == decimal(c) + "."@ + decimal(d),
    ensures
        a == c,
        b == d,
{
    reveal_strlit(".");
    let s = decimal(a) + "."@ + decimal(b);
    let t = decimal(c) + "."@ + decimal(d);
    lemma_numeral_chars(a, 10);
    lemma_numeral_chars(c, 10);
    let n = decimal(a).len() as int;
    let m = decimal(c).len() as int;
    assert(s[n] == '.');
    assert(t[m] == '.');
    if n < m {
        assert(t[n] == decimal(c)[n]);
        assert(is_digit(numeral(c, 10)[n]));
    } else if m < n {
        assert(s[m] == decimal(a)[m]);
        assert(is_digit(numeral(a, 10)[m]));
    }
    assert(s.take(n) =~= decimal(a));
    assert(t.take(m) =~= decimal(c));
    assert(s.skip(n + 1) =~= decimal(b));
    assert(t.skip(m + 1) =~= decimal(d));
    lemma_numeral_injective(a, c, 10);
    lemma_numeral_injective(b, d, 10);
}

/// Two instances share a host address exactly where they were given the same
/// subnet, and no host address is a guest address.
pub proof fn law_addresses_tell_subnets_apart(a: Seq<char>, b: Seq<char>)
    ensures
        slot_ip(subnet_slot(a), 1) == slot_ip(subnet_slot(b), 1) <==> subnet_slot(a)
            == subnet_slot(b),
        slot_ip(subnet_slot(a), 2) == slot_ip(subnet_slot(b), 2) <==> subnet_slot(a)
            == subnet_slot(b),
        slot_ip(subnet_slot(a), 1) != slot_ip(subnet_slot(b), 2),
{
    let sa = subnet_slot(a);
    let sb = subnet_slot(b);
    lemma_slot_ip(sa, 1, sb, 1);
    lemma_slot_ip(sa, 2, sb, 2);
    lemma_slot_ip(sa, 1, sb, 2);
}

/// Equal addresses come from the same subnet and the same number.
proof fn lemma_slot_ip(a: nat, i: nat, b: nat, j: nat)
    requires
        i < 4,
        j < 4,
    ensures
        slot_ip(a, i) == slot_ip(b, j) ==> a == b && i == j,
{
    reveal_strlit("10.42.");
    if slot_ip(a, i) == slot_ip(b, j) {
        assert(slot_ip(a, i).skip(6) =~= decimal(a / 64) + "."@ + decimal((a % 64) * 4 + i));
        assert(slot_ip(b, j).skip(6) =~= decimal(b / 64) + "."@ + decimal((b % 64) * 4 + j));
        lemma_dotted(a / 64, (a % 64) * 4 + i, b / 64, (b % 64) * 4 + j);
    }
}

/// One more character of one byte mixes that byte into the hash, and an empty text
/// has the hash that mixing starts from.
pub proof fn law_hash_takes_byte_after_byte(s: &str, longer: &str, c: char, h: u64, after: u64)
    requires
        longer@ == s@.push(c),
        (c as u32) < 0x80,
        call_ensures(stable_hash, (s,), h),
        call_ensures(stable_hash, (longer,), after),
    ensures
        after == (h ^ (c as u64)).wrapping_mul(0x100000001b3),
        s@.len() == 0 ==> h == 0xcbf29ce484222325,
{
    let one = seq![c];
    assert(longer@ =~= s@ + one);
    lemma_encode_concat(s@, one);
    lemma_one_byte(c);
    let a = encode_utf8(s@);
    let b = encode_utf8(longer@);
    assert(b =~= a.push(c as u8));
    assert(b.drop_last() =~= a);
}

/// A character of ASCII is one byte.
proof fn lemma_one_byte(c: char)
    requires
        (c as u32) < 0x80,
    ensures
        encode_utf8(seq![c]) == seq![c as u8],
{
    let one = seq![c];
    assert(is_ascii_chars(one)) by {
        assert forall|i: int| 0 <= i < one.len() implies 0 <= #[trigger] one[i] as u32 <= 127 by {}
    }
    is_ascii_chars_encode_utf8(one);
    assert(encode_utf8(one) =~= seq![c as u8]);
}

/// The bytes of a number, from their sum.
proof fn lemma_low_bytes(n: nat, b4: nat, b3: nat, b2: nat, b1: nat, b0: nat)
    requires
        b0 < 256 && b1 < 256 && b2 < 256 && b3 < 256 && b4 < 256,
        b4 * 0x100000000 + b3 * 0x1000000 + b2 * 0x10000 + b1 * 0x100 + b0 == n % 0x10000000000,
    ensures
        (n / 0x100000000) % 256 == b4,
        (n / 0x1000000) % 256 == b3,
        (n / 0x10000) % 256 == b2,
        (n / 0x100) % 256 == b1,
        n % 256 == b0,
{
    let m = n % 0x10000000000;
    let q = n / 0x10000000000;
    assert(n == q * 0x10000000000 + m);
    assert(n / 0x100000000 == q * 256 + b4);
    assert(n / 0x1000000 == (q * 256 + b4) * 256 + b3);
    assert(n / 0x10000 == ((q * 256 + b4) * 256 + b3) * 256 + b2);
    assert(n / 0x100 == (((q * 256 + b4) * 256 + b3) * 256 + b2) * 256 + b1);
}

/// The two last numbers of an address, from the slot.
proof fn lemma_address_numbers(slot: nat, high: nat, low: nat, k: nat)
    requires
        slot < 16384,
        k < 4,
        low < 256,
        high * 256 + low == 4 * slot + k,
    ensures
        slot / 64 == high,
        (slot % 64) * 4 + k == low,
{
    let a = slot / 64;
    let b = slot % 64;
    assert(slot == a * 64 + b);
    assert(high * 256 + low == a * 256 + (b * 4 + k));
}

/// An instance's interface is named after one of 16384 slots, which its hash gives;
/// its addresses are one and two above four times that slot, counted in the last
/// two bytes of `10.42.0.0`; and its context id is the hash, cut to the ids that are
/// not reserved.
pub proof fn law_addresses_come_from_the_hash(
    id: &str,
    h: u64,
    net: InstanceNet,
    cid: u32,
    high: nat,
    host: nat,
    guest: nat,
)
    requires
        call_ensures(stable_hash, (id,), h),
        call_ensures(InstanceNet::for_instance, (id,), net),
        call_ensures(cid_for_instance, (id,), cid),
        host < 256 && guest < 256,
        high * 256 + host == 4 * (h % 16384) + 1,
        high * 256 + guest == 4 * (h % 16384) + 2,
    ensures
        net.tap_name@ == "ring-"@ + hexadecimal((h % 16384) as nat),
        net.host_ip@ == "10.42."@ + decimal(high) + "."@ + decimal(host),
        net.guest_ip@ == "10.42."@ + decimal(high) + "."@ + decimal(guest),
        net.netmask@ == "255.255.255.252"@,
        net.prefix_len == 30,
        cid - 3 == h % 0xffff_fffc,
{
    let slot = (h % 16384) as nat;
    lemma_address_numbers(slot, high, host, 1);
    lemma_address_numbers(slot, high, guest, 2);
}

/// An instance's MAC address is the low five bytes of its hash, the highest first,
/// behind `02`.
#[verifier::spinoff_prover]
pub proof fn law_mac_comes_from_the_hash(
    id: &str,
    h: u64,
    net: InstanceNet,
    b: (nat, nat, nat, nat, nat),
)
    requires
        call_ensures(stable_hash, (id,), h),
        call_ensures(InstanceNet::for_instance, (id,), net),
        b.0 < 256 && b.1 < 256 && b.2 < 256 && b.3 < 256 && b.4 < 256,
        b.4 * 0x100000000 + b.3 * 0x1000000 + b.2 * 0x10000 + b.1 * 0x100 + b.0 == h
            % 0x10000000000,
    ensures
        net.mac@ == "02:"@ + zero_padded(hexadecimal(b.4), 2) + ":"@ + zero_padded(
            hexadecimal(b.3),
            2,
        ) + ":"@ + zero_padded(hexadecimal(b.2), 2) + ":"@ + zero_padded(hexadecimal(b.1), 2)
            + ":"@ + zero_padded(hexadecimal(b.0), 2),
{
    reveal_with_fuel(power, 5);
    assert(power(256, 0) == 1);
    assert(power(256, 1) == 0x100);
    assert(power(256, 2) == 0x10000);
    assert(power(256, 3) == 0x1000000);
    assert(power(256, 4) == 0x100000000);
    lemma_low_bytes(h as nat, b.4, b.3, b.2, b.1, b.0);
    assert(byte_hex(h, 4) == zero_padded(hexadecimal(b.4), 2));
    assert(byte_hex(h, 3) == zero_padded(hexadecimal(b.3), 2));
    assert(byte_hex(h, 2) == zero_padded(hexadecimal(b.2), 2));
    assert(byte_hex(h, 1) == zero_padded(hexadecimal(b.1), 2));
    assert(byte_hex(h, 0) == zero_padded(hexadecimal(b.0), 2));
}

} // verus!
