//! Little-endian integers and length-prefixed byte strings on the wire.
use vstd::prelude::*;

verus! {

/// The `n` low-order bytes of `v`, least significant byte first.
pub open spec fn le_bytes(v: nat, n: nat) -> Seq<u8>
    decreases n,
{
    if n == 0 {
        Seq::empty()
    } else {
        seq![(v % 256) as u8] + le_bytes(v / 256, (n - 1) as nat)
    }
}

/// The number that `s` spells, least significant byte first.
pub open spec fn le_value(s: Seq<u8>) -> nat
    decreases s.len(),
{
    if s.len() == 0 {
        0
    } else {
        s[0] as nat + 256 * le_value(s.drop_first())
    }
}

/// The two's complement of an `i8`, as the byte that carries it.
pub open spec fn twos8(v: i8) -> u8 {
    if v >= 0 {
        v as u8
    } else {
        (v + 0x100) as u8
    }
}

/// The two's complement of an `i32`.
pub open spec fn twos32(v: i32) -> u32 {
    if v >= 0 {
        v as u32
    } else {
        (v + 0x1_0000_0000) as u32
    }
}

/// The two's complement of an `i64`.
pub open spec fn twos64(v: i64) -> u64 {
    if v >= 0 {
        v as u64
    } else {
        (v + 0x1_0000_0000_0000_0000) as u64
    }
}

/// The `i8` whose two's complement is `v`.
pub open spec fn signed8(v: u8) -> i8 {
    if v < 0x80 {
        v as i8
    } else {
        (v - 0x100) as i8
    }
}

/// The `i32` whose two's complement is `v`.
pub open spec fn signed32(v: u32) -> i32 {
    if v < 0x8000_0000 {
        v as i32
    } else {
        (v - 0x1_0000_0000) as i32
    }
}

/// The `i64` whose two's complement is `v`.
pub open spec fn signed64(v: u64) -> i64 {
    if v < 0x8000_0000_0000_0000 {
        v as i64
    } else {
        (v - 0x1_0000_0000_0000_0000) as i64
    }
}

/// The `u16` at offset `p`.
pub open spec fn u16_at(s: Seq<u8>, p: int) -> u16 {
    le_value(s.subrange(p, p + 2)) as u16
}

/// The `u32` at offset `p`.
pub open spec fn u32_at(s: Seq<u8>, p: int) -> u32 {
    le_value(s.subrange(p, p + 4)) as u32
}

/// The `u64` at offset `p`.
pub open spec fn u64_at(s: Seq<u8>, p: int) -> u64 {
    le_value(s.subrange(p, p + 8)) as u64
}

/// The `i8` at offset `p`.
pub open spec fn i8_at(s: Seq<u8>, p: int) -> i8 {
    signed8(s[p])
}

/// The `i32` at offset `p`.
pub open spec fn i32_at(s: Seq<u8>, p: int) -> i32 {
    signed32(u32_at(s, p))
}

/// The `i64` at offset `p`.
pub open spec fn i64_at(s: Seq<u8>, p: int) -> i64 {
    signed64(u64_at(s, p))
}

/// A byte string behind a one-byte length.
pub open spec fn var8_bytes(s: Seq<u8>) -> Seq<u8> {
    le_bytes(s.len(), 1) + s
}

/// A byte string behind a two-byte length.
pub open spec fn var16_bytes(s: Seq<u8>) -> Seq<u8> {
    le_bytes(s.len(), 2) + s
}

/// The byte string behind the one-byte length at `p`, with the offset of its end.
pub open spec fn var8_at(s: Seq<u8>, p: int) -> Option<(Seq<u8>, int)> {
    if 0 <= p < s.len() && p + 1 + s[p] <= s.len() {
        Some((s.subrange(p + 1, p + 1 + s[p]), p + 1 + s[p]))
    } else {
        None
    }
}

/// The byte string behind the two-byte length at `p`, with the offset of its end.
pub open spec fn var16_at(s: Seq<u8>, p: int) -> Option<(Seq<u8>, int)> {
    if 0 <= p && p + 2 <= s.len() && p + 2 + u16_at(s, p) <= s.len() {
        Some((s.subrange(p + 2, p + 2 + u16_at(s, p)), p + 2 + u16_at(s, p)))
    } else {
        None
    }
}

/// `256^n`.
pub open spec fn base256(n: nat) -> nat
    decreases n,
{
    if n == 0 {
        1
    } else {
        256 * base256((n - 1) as nat)
    }
}

/// `n` bytes spell `n` bytes.
pub broadcast proof fn lemma_le_bytes_len(v: nat, n: nat)
    ensures
        #[trigger] le_bytes(v, n).len() == n,
    decreases n,
{
    if n > 0 {
        lemma_le_bytes_len(v / 256, (n - 1) as nat);
    }
}

/// A sequence of `n` bytes spells a number below `256^n`.
pub proof fn lemma_le_value_bound(s: Seq<u8>)
    ensures
        le_value(s) < base256(s.len()),
    decreases s.len(),
{
    if s.len() > 0 {
        lemma_le_value_bound(s.drop_first());
    }
}

/// The powers of 256 that the integer widths need.
pub proof fn lemma_base256_widths()
    ensures
        base256(1) == 0x100,
        base256(2) == 0x1_0000,
        base256(4) == 0x1_0000_0000,
        base256(8) == 0x1_0000_0000_0000_0000,
{
    reveal_with_fuel(base256, 9);
}

/// Writing a number that fits in `n` bytes and reading it back gives the number.
pub proof fn lemma_le_round_trip(v: nat, n: nat)
    requires
        v < base256(n),
    ensures
        le_value(le_bytes(v, n)) == v,
    decreases n,
{
    if n > 0 {
        let rest = le_bytes(v / 256, (n - 1) as nat);
        lemma_le_round_trip(v / 256, (n - 1) as nat);
        assert(le_bytes(v, n).drop_first() =~= rest);
    }
}

/// Reading `n` bytes as a number and writing it back gives the bytes.
pub proof fn law_le_bytes_round_trip(s: Seq<u8>)
    ensures
        le_bytes(le_value(s), s.len()) == s,
    decreases s.len(),
{
    if s.len() > 0 {
        law_le_bytes_round_trip(s.drop_first());
        assert(seq![s[0]] + s.drop_first() =~= s);
    }
}

/// Only the `n` low-order bytes of a number are written.
pub proof fn lemma_le_bytes_low(v: nat, low: nat, n: nat)
    requires
        low == v % base256(n),
    ensures
        le_bytes(low, n) == le_bytes(v, n),
    decreases n,
{
    if n > 0 {
        let b = base256((n - 1) as nat) as int;
        let v = v as int;
        lemma_base256_positive((n - 1) as nat);
        assert(256 * b > 0 && (v % (256 * b)) % 256 == v % 256) by {
            vstd::arithmetic::div_mod::lemma_mod_mod(v, 256, b);
        }
        assert((v % (256 * b)) / 256 == (v / 256) % b) by {
            vstd::arithmetic::div_mod::lemma_part_bound2(v, 256, b);
            vstd::arithmetic::div_mod::lemma_breakdown(v, 256, b);
            vstd::arithmetic::div_mod::lemma_fundamental_div_mod_converse(
                v % (256 * b),
                256,
                (v / 256) % b,
                v % 256,
            );
        }
        lemma_le_bytes_low((v / 256) as nat, low / 256, (n - 1) as nat);
    }
}

pub proof fn lemma_base256_positive(n: nat)
    ensures
        base256(n) > 0,
    decreases n,
{
    if n > 0 {
        lemma_base256_positive((n - 1) as nat);
    }
}

/// A number that stands at `p` is read from there.
pub proof fn lemma_le_at(s: Seq<u8>, p: int, v: nat, n: nat)
    requires
        0 <= p,
        p + n <= s.len(),
        s.subrange(p, p + n) =~= le_bytes(v, n),
        v < base256(n),
    ensures
        le_value(s.subrange(p, p + n)) == v,
{
    lemma_le_round_trip(v, n);
}

/// The two's complement loses nothing.
pub proof fn lemma_twos_round_trip(a: i8, b: i32, c: i64)
    ensures
        signed8(twos8(a)) == a,
        signed32(twos32(b)) == b,
        signed64(twos64(c)) == c,
{
}

/// An `i64` as its two's complement.
pub(crate) fn i64_bits(v: i64) -> (r: u64)
    ensures
        r == twos64(v),
{
    assert(v < 0 ==> (v as u64) as int == v + 0x1_0000_0000_0000_0000) by (bit_vector);
    v as u64
}

pub(crate) fn i32_bits(v: i32) -> (r: u32)
    ensures
        r == twos32(v),
{
    assert(v < 0 ==> (v as u32) as int == v + 0x1_0000_0000) by (bit_vector);
    v as u32
}

pub(crate) fn i8_bits(v: i8) -> (r: u8)
    ensures
        r == twos8(v),
{
    assert(v < 0 ==> (v as u8) as int == v + 0x100) by (bit_vector);
    v as u8
}

pub(crate) fn bits_i64(v: u64) -> (r: i64)
    ensures
        r == signed64(v),
{
    assert(v >= 0x8000_0000_0000_0000 ==> (v as i64) as int == v - 0x1_0000_0000_0000_0000)
        by (bit_vector);
    v as i64
}

pub(crate) fn bits_i32(v: u32) -> (r: i32)
    ensures
        r == signed32(v),
{
    assert(v >= 0x8000_0000 ==> (v as i32) as int == v - 0x1_0000_0000) by (bit_vector);
    v as i32
}

pub(crate) fn bits_i8(v: u8) -> (r: i8)
    ensures
        r == signed8(v),
{
    assert(v >= 0x80 ==> (v as i8) as int == v - 0x100) by (bit_vector);
    v as i8
}

/// Appends the `n` low-order bytes of `v`.
fn put_le(buf: &mut Vec<u8>, v: u64, n: usize)
    ensures
        final(buf)@ == old(buf)@ + le_bytes(v as nat, n as nat),
{
    let mut rest: u64 = v;
    let mut i: usize = 0;
    while i < n
        invariant
            i <= n,
            buf@ + le_bytes(rest as nat, (n - i) as nat) == old(buf)@ + le_bytes(
                v as nat,
                n as nat,
            ),
        decreases n - i,
    {
        let ghost before = buf@;
        let low: u8 = (rest % 256) as u8;
        buf.push(low);
        rest = rest / 256;
        i = i + 1;
        assert(buf@ + le_bytes(rest as nat, (n - i) as nat) =~= before + (seq![low] + le_bytes(
            rest as nat,
            (n - i) as nat,
        )));
    }
    assert(buf@ =~= buf@ + le_bytes(rest as nat, 0));
}

pub(crate) fn put_u8(buf: &mut Vec<u8>, v: u8)
    ensures
        final(buf)@ == old(buf)@ + seq![v],
{
    buf.push(v);
    assert(buf@ =~= old(buf)@ + seq![v]);
}

pub(crate) fn put_i8(buf: &mut Vec<u8>, v: i8)
    ensures
        final(buf)@ == old(buf)@ + seq![twos8(v)],
{
    put_u8(buf, i8_bits(v));
}

pub(crate) fn put_u16(buf: &mut Vec<u8>, v: u16)
    ensures
        final(buf)@ == old(buf)@ + le_bytes(v as nat, 2),
{
    put_le(buf, v as u64, 2);
}

pub(crate) fn put_u32(buf: &mut Vec<u8>, v: u32)
    ensures
        final(buf)@ == old(buf)@ + le_bytes(v as nat, 4),
{
    put_le(buf, v as u64, 4);
}

pub(crate) fn put_i32(buf: &mut Vec<u8>, v: i32)
    ensures
        final(buf)@ == old(buf)@ + le_bytes(twos32(v) as nat, 4),
{
    put_le(buf, i32_bits(v) as u64, 4);
}

pub(crate) fn put_u64(buf: &mut Vec<u8>, v: u64)
    ensures
        final(buf)@ == old(buf)@ + le_bytes(v as nat, 8),
{
    put_le(buf, v, 8);
}

pub(crate) fn put_i64(buf: &mut Vec<u8>, v: i64)
    ensures
        final(buf)@ == old(buf)@ + le_bytes(twos64(v) as nat, 8),
{
    put_le(buf, i64_bits(v), 8);
}

/// Appends `s`.
pub(crate) fn put_bytes(buf: &mut Vec<u8>, s: &[u8])
    ensures
        final(buf)@ == old(buf)@ + s@,
{
    buf.extend_from_slice(s);
    assert(buf@ =~= old(buf)@ + s@);
}

/// varString8: u8 length + bytes.
pub(crate) fn put_var8(buf: &mut Vec<u8>, s: &[u8])
    requires
        s@.len() <= u8::MAX,
    ensures
        final(buf)@ == old(buf)@ + var8_bytes(s@),
{
    let ghost start = buf@;
    put_le(buf, s.len() as u64, 1);
    put_bytes(buf, s);
    assert(buf@ =~= start + var8_bytes(s@));
}

/// varString: u16 length + bytes.
pub(crate) fn put_var16(buf: &mut Vec<u8>, s: &[u8])
    requires
        s@.len() <= u16::MAX,
    ensures
        final(buf)@ == old(buf)@ + var16_bytes(s@),
{
    let ghost start = buf@;
    put_le(buf, s.len() as u64, 2);
    put_bytes(buf, s);
    assert(buf@ =~= start + var16_bytes(s@));
}

} // verus!
