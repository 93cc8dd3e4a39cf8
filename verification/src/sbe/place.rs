//! Where bytes stand, and what is read there.
use crate::sbe::wire;
use vstd::prelude::*;

verus! {

/// `x` stands in `s` at offset `p`.
pub open spec fn stands(s: Seq<u8>, p: int, x: Seq<u8>) -> bool {
    0 <= p && p + x.len() <= s.len() && s.subrange(p, p + x.len()) == x
}

/// Two strings stand one behind the other where their concatenation stands.
pub broadcast proof fn lemma_stands_split(s: Seq<u8>, p: int, a: Seq<u8>, b: Seq<u8>)
    requires
        #[trigger] stands(s, p, a + b),
    ensures
        stands(s, p, a),
        stands(s, p + a.len(), b),
{
    assert(s.subrange(p, p + a.len()) =~= (a + b).subrange(0, a.len() as int));
    assert((a + b).subrange(0, a.len() as int) =~= a);
    assert(s.subrange(p + a.len(), p + a.len() + b.len()) =~= (a + b).subrange(
        a.len() as int,
        (a + b).len() as int,
    ));
    assert((a + b).subrange(a.len() as int, (a + b).len() as int) =~= b);
}

/// A string stands at its front.
pub proof fn lemma_stands_at_front(s: Seq<u8>, rest: Seq<u8>)
    ensures
        stands(s + rest, 0, s),
{
    assert((s + rest).subrange(0, s.len() as int) =~= s);
}

/// A part of what stands stands too.
pub proof fn lemma_stands_within(s: Seq<u8>, p: int, x: Seq<u8>, q: int, y: Seq<u8>)
    requires
        stands(s, p, x),
        stands(x, q, y),
    ensures
        stands(s, p + q, y),
{
    assert(s.subrange(p + q, p + q + y.len()) =~= s.subrange(p, p + x.len()).subrange(
        q,
        q + y.len(),
    ));
}

/// A byte that stands is there.
pub broadcast proof fn lemma_stands_byte(s: Seq<u8>, p: int, c: u8)
    requires
        #[trigger] stands(s, p, seq![c]),
    ensures
        0 <= p < s.len(),
        s[p] == c,
        wire::i8_at(s, p) == wire::signed8(c),
{
    assert(s.subrange(p, p + 1)[0] == c);
}

/// A number that stands in two bytes is read there.
pub broadcast proof fn lemma_stands_u16(s: Seq<u8>, p: int, v: u16)
    requires
        #[trigger] stands(s, p, wire::le_bytes(v as nat, 2)),
    ensures
        0 <= p && p + 2 <= s.len(),
        wire::u16_at(s, p) == v,
{
    wire::lemma_base256_widths();
    wire::lemma_le_bytes_len(v as nat, 2);
    wire::lemma_le_round_trip(v as nat, 2);
}

/// A number that stands in four bytes is read there.
pub broadcast proof fn lemma_stands_u32(s: Seq<u8>, p: int, v: u32)
    requires
        #[trigger] stands(s, p, wire::le_bytes(v as nat, 4)),
    ensures
        0 <= p && p + 4 <= s.len(),
        wire::u32_at(s, p) == v,
        wire::i32_at(s, p) == wire::signed32(v),
{
    wire::lemma_base256_widths();
    wire::lemma_le_bytes_len(v as nat, 4);
    wire::lemma_le_round_trip(v as nat, 4);
}

/// A number that stands in eight bytes is read there.
pub broadcast proof fn lemma_stands_u64(s: Seq<u8>, p: int, v: u64)
    requires
        #[trigger] stands(s, p, wire::le_bytes(v as nat, 8)),
    ensures
        0 <= p && p + 8 <= s.len(),
        wire::u64_at(s, p) == v,
        wire::i64_at(s, p) == wire::signed64(v),
{
    wire::lemma_base256_widths();
    wire::lemma_le_bytes_len(v as nat, 8);
    wire::lemma_le_round_trip(v as nat, 8);
}

/// A string that stands behind a one-byte length is read there.
pub broadcast proof fn lemma_stands_var8(s: Seq<u8>, p: int, t: Seq<u8>)
    requires
        #[trigger] stands(s, p, wire::var8_bytes(t)),
        t.len() <= 255,
    ensures
        wire::var8_at(s, p) == Some((t, p + 1 + t.len())),
        wire::var8_bytes(t).len() == 1 + t.len(),
{
    wire::lemma_le_bytes_len(t.len(), 1);
    let x = wire::var8_bytes(t);
    assert(s[p] == s.subrange(p, p + x.len())[0]);
    assert(x[0] == t.len()) by {
        reveal_with_fuel(wire::le_bytes, 2);
    }
    assert(s.subrange(p + 1, p + 1 + t.len()) =~= x.subrange(1, x.len() as int)) by {
        assert(s.subrange(p, p + x.len()).subrange(1, x.len() as int) =~= s.subrange(
            p + 1,
            p + 1 + t.len(),
        ));
    }
    assert(x.subrange(1, x.len() as int) =~= t);
}

/// A string that stands behind a two-byte length is read there.
pub broadcast proof fn lemma_stands_var16(s: Seq<u8>, p: int, t: Seq<u8>)
    requires
        #[trigger] stands(s, p, wire::var16_bytes(t)),
        t.len() <= 65_535,
    ensures
        wire::var16_at(s, p) == Some((t, p + 2 + t.len())),
        wire::var16_bytes(t).len() == 2 + t.len(),
{
    wire::lemma_le_bytes_len(t.len(), 2);
    lemma_stands_split(s, p, wire::le_bytes(t.len(), 2), t);
    lemma_stands_u16(s, p, t.len() as u16);
}

/// What is needed to read what stands.
pub broadcast group group_stands {
    lemma_stands_split,
    lemma_stands_byte,
    lemma_stands_u16,
    lemma_stands_u32,
    lemma_stands_u64,
    lemma_stands_var8,
    lemma_stands_var16,
    wire::lemma_le_bytes_len,
}

/// Integers are written least significant byte first: byte `k` counts 256 to the
/// power of `k`.
pub proof fn law_least_significant_byte_first(v: nat, n: nat, k: nat)
    requires
        k < n,
    ensures
        wire::le_bytes(v, n).len() == n,
        wire::le_bytes(v, n)[k as int] == (v / wire::base256(k)) % 256,
        k == 0 ==> wire::le_bytes(v, n)[0] == v % 256,
        k == 1 ==> wire::le_bytes(v, n)[1] == (v / 256) % 256,
        wire::base256(k + 1) == 256 * wire::base256(k),
        wire::base256(0) == 1,
    decreases n,
{
    wire::lemma_le_bytes_len(v, n);
    wire::lemma_le_bytes_len(v / 256, (n - 1) as nat);
    assert(wire::le_bytes(v, n)[0] == v % 256);
    if k == 0 {
        assert(v / 1 == v);
    } else {
        let j = (k - 1) as nat;
        law_least_significant_byte_first(v / 256, (n - 1) as nat, j);
        wire::lemma_base256_positive(j);
        vstd::arithmetic::div_mod::lemma_div_denominator(v as int, 256, wire::base256(j) as int);
        assert(wire::base256(k) == 256 * wire::base256(j));
        assert(v / wire::base256(k) == v / 256 / wire::base256(j));
        assert(wire::le_bytes(v, n)[k as int] == wire::le_bytes(v / 256, (n - 1) as nat)[j as int]);
        if k == 1 {
            assert(wire::base256(0) == 1);
            assert(wire::base256(1) == 256) by {
                reveal_with_fuel(wire::base256, 2);
            }
        }
    }
}

/// A negative number is written as what it lacks of a power of two, and read back as
/// itself.
pub proof fn law_twos_complement(a: i8, b: i32, c: i64)
    ensures
        wire::twos8(a) == if a < 0 {
            a + 256
        } else {
            a as int
        },
        wire::twos32(b) == if b < 0 {
            b + 4_294_967_296
        } else {
            b as int
        },
        wire::twos64(c) == if c < 0 {
            c + 18_446_744_073_709_551_616
        } else {
            c as int
        },
        wire::signed8(wire::twos8(a)) == a,
        wire::signed32(wire::twos32(b)) == b,
        wire::signed64(wire::twos64(c)) == c,
{
}

/// Every integer and every string is read back where it was written, whatever
/// stands before and behind it.
pub proof fn law_fields_read_back(
    front: Seq<u8>,
    back: Seq<u8>,
    b: u8,
    h: u16,
    w: u32,
    d: u64,
    t: Seq<u8>,
)
    ensures
        (front + seq![b] + back)[front.len() as int] == b,
        wire::u16_at(front + wire::le_bytes(h as nat, 2) + back, front.len() as int) == h,
        wire::u32_at(front + wire::le_bytes(w as nat, 4) + back, front.len() as int) == w,
        wire::u64_at(front + wire::le_bytes(d as nat, 8) + back, front.len() as int) == d,
        t.len() <= 255 ==> wire::var8_at(
            front + wire::var8_bytes(t) + back,
            front.len() as int,
        ) == Some((t, (front.len() + 1 + t.len()) as int)),
        t.len() <= 65_535 ==> wire::var16_at(
            front + wire::var16_bytes(t) + back,
            front.len() as int,
        ) == Some((t, (front.len() + 2 + t.len()) as int)),
{
    broadcast use group_stands;

    lemma_stands_at_front(front + wire::le_bytes(h as nat, 2), back);
    lemma_stands_at_front(front + wire::le_bytes(w as nat, 4), back);
    lemma_stands_at_front(front + wire::le_bytes(d as nat, 8), back);
    lemma_stands_at_front(front + wire::var8_bytes(t), back);
    lemma_stands_at_front(front + wire::var16_bytes(t), back);
}

} // verus!
