use vstd::prelude::*;
use vstd::string::StringExecFns;
use crate::ethernet::ProtocolAddr;
use vstd::arithmetic::power2::pow2;
use vstd::bits::{
    low_bits_mask, lemma_u16_low_bits_mask_is_mod, lemma_u16_pow2_no_overflow,
    lemma_u16_shl_is_mul, lemma_u16_shr_is_div,
};

verus! {

/// Longest byte sequence whose 16-bit words can be summed in a 32-bit
/// accumulator and folded once without overflow.
pub const MAX_CHECKSUM_LEN: usize = 131072;

/// A big-endian 16-bit value.
pub open spec fn be16(hi: u8, lo: u8) -> nat {
    hi as nat * 256 + lo as nat
}

/// A big-endian 32-bit value.
pub open spec fn be32(b0: u8, b1: u8, b2: u8, b3: u8) -> nat {
    b0 as nat * 16777216 + b1 as nat * 65536 + b2 as nat * 256 + b3 as nat
}

/// The two bytes of `v` in network order.
pub open spec fn be16_bytes(v: u16) -> Seq<u8> {
    seq![(v / 256) as u8, (v % 256) as u8]
}

/// The four bytes of `v` in network order.
pub open spec fn be32_bytes(v: u32) -> Seq<u8> {
    seq![(v / 16777216) as u8, ((v / 65536) % 256) as u8, ((v / 256) % 256) as u8, (v % 256) as u8]
}

/// Bits `[lo, hi)` of `byte`, moved down to bit 0.
pub open spec fn bit_field(byte: u8, lo: nat, hi: nat) -> nat {
    (byte as nat / pow2(lo)) % pow2((hi - lo) as nat)
}

/// `b` with one zero byte appended when its length is odd.
pub open spec fn padded(b: Seq<u8>) -> Seq<u8> {
    if b.len() % 2 == 1 {
        b.push(0u8)
    } else {
        b
    }
}

/// The `i`-th big-endian 16-bit word of `b`.
pub open spec fn word_at(b: Seq<u8>, i: int) -> nat {
    be16(b[2 * i], b[2 * i + 1])
}

/// Sum of the first `n` 16-bit words of `b`.
pub open spec fn sum_words(b: Seq<u8>, n: nat) -> nat
    decreases n,
{
    if n == 0 {
        0
    } else {
        sum_words(b, (n - 1) as nat) + word_at(b, n - 1)
    }
}

/// `b` with the two bytes of a checksum field at `start` cleared.
pub open spec fn zero_field(b: Seq<u8>, start: int) -> Seq<u8> {
    b.update(start, 0u8).update(start + 1, 0u8)
}

/// A 32-bit sum with its high half added once into its low half, kept to 16 bits.
pub open spec fn fold_carry(s: nat) -> nat {
    (s + s / 65536) % 65536
}

/// The one's-complement checksum of `b` computed with the field at `start` taken as zero.
pub open spec fn checksum_of(b: Seq<u8>, start: int) -> u16 {
    let p = zero_field(padded(b), start);
    (65535 - fold_carry(sum_words(p, p.len() / 2))) as u16
}

/// The checksum that `b` carries in its field at `start`.
pub open spec fn stored_checksum(b: Seq<u8>, start: int) -> u16 {
    be16(padded(b)[start], padded(b)[start + 1]) as u16
}

/// The checksum field at `start` holds the checksum of `b`.
pub open spec fn checksum_verifies(b: Seq<u8>, start: int) -> bool {
    checksum_of(b, start) == stored_checksum(b, start)
}

/// The checksum field at `start` can be read from `b`.
pub open spec fn checksum_field_in(b: Seq<u8>, start: int) -> bool {
    0 <= start && start + 2 <= padded(b).len() && b.len() <= MAX_CHECKSUM_LEN
}

/// Reads a big-endian `u16` from two bytes.
pub fn ntohs(input: &[u8]) -> (r: u16)
    requires
        input@.len() == 2,
    ensures
        r as nat == be16(input@[0], input@[1]),
{
    (input[0] as u16) * 256 + input[1] as u16
}

/// Reads a little-endian `u16` from two bytes.
pub fn htons(input: &[u8]) -> (r: u16)
    requires
        input@.len() == 2,
    ensures
        r as nat == be16(input@[1], input@[0]),
{
    (input[1] as u16) * 256 + input[0] as u16
}

/// Reads a big-endian `u32` from four bytes.
pub fn ntohl(input: &[u8]) -> (r: u32)
    requires
        input@.len() == 4,
    ensures
        r as nat == be32(input@[0], input@[1], input@[2], input@[3]),
{
    (input[0] as u32) * 16777216 + (input[1] as u32) * 65536 + (input[2] as u32) * 256
        + input[3] as u32
}

/// Appends the two network-order bytes of `v`.
pub fn push_be16(buf: &mut Vec<u8>, v: u16)
    ensures
        final(buf)@ == old(buf)@ + be16_bytes(v),
{
    buf.push((v / 256) as u8);
    buf.push((v % 256) as u8);
    assert(final(buf)@ =~= old(buf)@ + be16_bytes(v));
}

/// Appends the four network-order bytes of `v`.
pub fn push_be32(buf: &mut Vec<u8>, v: u32)
    ensures
        final(buf)@ == old(buf)@ + be32_bytes(v),
{
    buf.push((v / 16777216) as u8);
    buf.push(((v / 65536) % 256) as u8);
    buf.push(((v / 256) % 256) as u8);
    buf.push((v % 256) as u8);
    assert(final(buf)@ =~= old(buf)@ + be32_bytes(v));
}

/// Appends every byte of `src`.
pub fn push_all(buf: &mut Vec<u8>, src: &[u8])
    ensures
        final(buf)@ == old(buf)@ + src@,
{
    let mut i: usize = 0;
    while i < src.len()
        invariant
            i <= src@.len(),
            buf@ == old(buf)@ + src@.subrange(0, i as int),
        decreases src@.len() - i,
    {
        buf.push(src[i]);
        i = i + 1;
        assert(buf@ =~= old(buf)@ + src@.subrange(0, i as int));
    }
    assert(src@.subrange(0, src@.len() as int) =~= src@);
}

/// The one's-complement checksum over `packet` with the two bytes at
/// `checksum_range` taken as zero, and the checksum those bytes hold.
/// An odd-length packet is summed as if padded with one zero byte.
pub fn compute_ip_checksum(packet: &[u8], checksum_range: std::ops::Range<usize>) -> (r: (u16, u16))
    requires
        checksum_range.end == checksum_range.start + 2,
        checksum_field_in(packet@, checksum_range.start as int),
    ensures
        r.0 == checksum_of(packet@, checksum_range.start as int),
        r.1 == stored_checksum(packet@, checksum_range.start as int),
{
    let start = checksum_range.start;
    let mut packet_clone = vstd::slice::slice_to_vec(packet);
    // An odd number of bytes is padded so that it splits into 16-bit words.
    if packet.len() % 2 != 0 {
        packet_clone.push(0u8);
    }
    assert(packet_clone@ == padded(packet@));
    let current_checksum = ntohs(vstd::slice::slice_subrange(
        packet_clone.as_slice(),
        start,
        checksum_range.end,
    ));
    packet_clone.set(start, 0u8);
    packet_clone.set(start + 1, 0u8);
    assert(packet_clone@ == zero_field(padded(packet@), start as int));

    let n = packet_clone.len() / 2;
    let mut sum: u32 = 0;
    let mut i: usize = 0;
    while i < n
        invariant
            n == packet_clone@.len() / 2,
            n <= 65536,
            i <= n,
            sum as nat == sum_words(packet_clone@, i as nat),
            sum <= i * 65535,
        decreases n - i,
    {
        let word = (packet_clone[2 * i] as u32) * 256 + packet_clone[2 * i + 1] as u32;
        sum = sum + word;
        i = i + 1;
    }
    // Fold the carries above bit 15 back into the low half.
    let carry = sum >> 16;
    assert(carry == sum / 65536) by (bit_vector)
        requires
            carry == sum >> 16,
    ;
    let folded = sum + carry;
    let sum16 = #[verifier::truncate] (folded as u16);
    assert(sum16 == folded % 65536) by (bit_vector)
        requires
            sum16 == #[verifier::truncate] (folded as u16),
    ;
    let computed = !sum16;
    assert(computed == 65535 - sum16) by (bit_vector)
        requires
            computed == !sum16,
    ;
    (computed, current_checksum)
}

/// Bits `[rng.start, rng.end)` of `byte`, moved down to bit 0.
pub fn get_bits(byte: u8, rng: std::ops::Range<u8>) -> (r: u8)
    requires
        rng.start <= rng.end <= 8,
    ensures
        r as nat == bit_field(byte, rng.start as nat, rng.end as nat),
{
    let range: u8 = rng.end - rng.start;
    let start = rng.start;
    proof {
        lemma_u16_pow2_no_overflow(range as nat);
        lemma_u16_shl_is_mul(1u16, range as u16);
        lemma_u16_shr_is_div(byte as u16, start as u16);
    }
    let and_arg: u16 = (1u16 << (range as u16)) - 1;
    let shifted: u16 = (byte as u16) >> (start as u16);
    proof {
        assert(and_arg == low_bits_mask(range as nat) as u16);
        lemma_u16_low_bits_mask_is_mod(shifted, range as nat);
        vstd::arithmetic::power2::lemma_pow2_pos(start as nat);
        vstd::arithmetic::div_mod::lemma_div_is_ordered_by_denominator(
            byte as int,
            1,
            pow2(start as nat) as int,
        );
    }
    let masked = shifted & and_arg;
    assert(masked <= shifted) by (bit_vector)
        requires
            masked == shifted & and_arg,
    ;
    masked as u8
}

/// The character of decimal digit `d`.
pub open spec fn digit_char(d: nat) -> char {
    if d == 0 {
        '0'
    } else if d == 1 {
        '1'
    } else if d == 2 {
        '2'
    } else if d == 3 {
        '3'
    } else if d == 4 {
        '4'
    } else if d == 5 {
        '5'
    } else if d == 6 {
        '6'
    } else if d == 7 {
        '7'
    } else if d == 8 {
        '8'
    } else {
        '9'
    }
}

/// `n` written in decimal, without leading zeros.
pub open spec fn decimal(n: nat) -> Seq<char>
    decreases n,
{
    if n < 10 {
        seq![digit_char(n)]
    } else {
        decimal(n / 10) + seq![digit_char(n % 10)]
    }
}

/// An IPv4 address in dotted decimal form.
pub open spec fn dotted_quad(ip: ProtocolAddr) -> Seq<char> {
    decimal(ip[0] as nat) + seq!['.'] + decimal(ip[1] as nat) + seq!['.'] + decimal(ip[2] as nat)
        + seq!['.'] + decimal(ip[3] as nat)
}

/// The text `"A.B.C.D:port"` that names a socket address.
pub open spec fn identifier_text(ip: ProtocolAddr, port: u16) -> Seq<char> {
    dotted_quad(ip) + seq![':'] + decimal(port as nat)
}

fn digit_str(d: u16) -> (r: &'static str)
    requires
        d < 10,
    ensures
        r@ == seq![digit_char(d as nat)],
{
    proof {
        reveal_strlit("0");
        reveal_strlit("1");
        reveal_strlit("2");
        reveal_strlit("3");
        reveal_strlit("4");
        reveal_strlit("5");
        reveal_strlit("6");
        reveal_strlit("7");
        reveal_strlit("8");
        reveal_strlit("9");
    }
    match d {
        0 => "0",
        1 => "1",
        2 => "2",
        3 => "3",
        4 => "4",
        5 => "5",
        6 => "6",
        7 => "7",
        8 => "8",
        _ => "9",
    }
}

/// Appends `n` in decimal.
pub fn push_decimal(s: &mut String, n: u16)
    ensures
        final(s)@ == old(s)@ + decimal(n as nat),
    decreases n,
{
    if n >= 10 {
        push_decimal(s, n / 10);
    }
    s.append(digit_str(n % 10));
    assert(final(s)@ =~= old(s)@ + decimal(n as nat));
}

fn push_str(s: &mut String, text: &str)
    ensures
        final(s)@ == old(s)@ + text@,
{
    s.append(text);
}

/// Appends `ip` in dotted decimal form.
pub fn push_dotted_quad(s: &mut String, ip: ProtocolAddr)
    ensures
        final(s)@ == old(s)@ + dotted_quad(ip),
{
    proof {
        reveal_strlit(".");
    }
    push_decimal(s, ip[0] as u16);
    push_str(s, ".");
    push_decimal(s, ip[1] as u16);
    push_str(s, ".");
    push_decimal(s, ip[2] as u16);
    push_str(s, ".");
    push_decimal(s, ip[3] as u16);
    assert(final(s)@ =~= old(s)@ + dotted_quad(ip));
}

/// The socket table key `"A.B.C.D:port"` of an address.
pub fn addr_identifier(ip: ProtocolAddr, port: u16) -> (r: String)
    ensures
        r@ == identifier_text(ip, port),
{
    proof {
        reveal_strlit(":");
    }
    let mut s = String::new();
    push_dotted_quad(&mut s, ip);
    push_str(&mut s, ":");
    push_decimal(&mut s, port);
    assert(s@ =~= identifier_text(ip, port));
    s
}

/// `b` with `v` written in network order at `start`.
pub open spec fn patch_be16(b: Seq<u8>, start: int, v: u16) -> Seq<u8> {
    b.update(start, (v / 256) as u8).update(start + 1, (v % 256) as u8)
}

/// The checksum does not depend on what the checksum field holds.
pub proof fn lemma_checksum_ignores_field(b: Seq<u8>, start: int, v: u16)
    requires
        0 <= start,
        start + 2 <= b.len(),
    ensures
        checksum_of(patch_be16(b, start, v), start) == checksum_of(b, start),
{
    let b2 = patch_be16(b, start, v);
    assert(zero_field(padded(b2), start) =~= zero_field(padded(b), start));
}

/// Writing its own checksum into the field at `start` makes a sequence verify.
pub proof fn lemma_patched_checksum_verifies(b: Seq<u8>, start: int)
    requires
        0 <= start,
        start + 2 <= b.len(),
    ensures
        checksum_verifies(patch_be16(b, start, checksum_of(b, start)), start),
{
    let c = checksum_of(b, start);
    let b2 = patch_be16(b, start, c);
    lemma_checksum_ignores_field(b, start, c);
    assert(padded(b2)[start] == (c / 256) as u8);
    assert(padded(b2)[start + 1] == (c % 256) as u8);
}

/// Writes `v` in network order at `start`.
pub fn set_be16(buf: &mut Vec<u8>, start: usize, v: u16)
    requires
        start + 2 <= old(buf)@.len(),
    ensures
        final(buf)@ == patch_be16(old(buf)@, start as int, v),
{
    let len = buf.len();
    assert(start + 1 < len);
    buf.set(start, (v / 256) as u8);
    buf.set(start + 1, (v % 256) as u8);
}

/// Whether two byte strings are equal.
pub fn bytes_equal(a: &[u8], b: &[u8]) -> (r: bool)
    ensures
        r == (a@ == b@),
{
    if a.len() != b.len() {
        return false;
    }
    let mut i: usize = 0;
    while i < a.len()
        invariant
            a@.len() == b@.len(),
            i <= a@.len(),
            forall|j: int| 0 <= j < i ==> a@[j] == b@[j],
        decreases a@.len() - i,
    {
        if a[i] != b[i] {
            return false;
        }
        i = i + 1;
    }
    assert(a@ =~= b@);
    true
}

} // verus!
