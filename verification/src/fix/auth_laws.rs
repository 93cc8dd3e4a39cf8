//! What is signed and sent at a Logon can be read back.
use crate::fix::auth;
use crate::text;
use vstd::prelude::*;
use vstd::utf8;

verus! {

/// The fields of a message whose fields have the byte 1 between them.
pub open spec fn fields(s: Seq<u8>) -> Seq<Seq<u8>>
    decreases s.len(),
{
    fields_from(s, Seq::empty())
}

/// The fields of a message of which `front` of the first one was read already.
pub open spec fn fields_from(s: Seq<u8>, front: Seq<u8>) -> Seq<Seq<u8>>
    decreases s.len(),
{
    if s.len() == 0 {
        seq![front]
    } else if s[0] == 1 {
        seq![front] + fields_from(s.drop_first(), Seq::empty())
    } else {
        fields_from(s.drop_first(), front.push(s[0]))
    }
}

/// A byte string without the byte that separates fields.
pub open spec fn unseparated(s: Seq<u8>) -> bool {
    forall|i: int| 0 <= i < s.len() ==> #[trigger] s[i] != 1
}

/// A field ends at the next separator.
proof fn lemma_field_ends(a: Seq<u8>, front: Seq<u8>, rest: Seq<u8>)
    requires
        unseparated(a),
    ensures
        fields_from(a + seq![1u8] + rest, front) == seq![front + a] + fields(rest),
    decreases a.len(),
{
    let s = a + seq![1u8] + rest;
    if a.len() == 0 {
        assert(s.drop_first() =~= rest);
        assert(front + a =~= front);
    } else {
        let b = a.drop_first();
        assert(s.drop_first() =~= b + seq![1u8] + rest);
        assert forall|i: int| 0 <= i < b.len() implies #[trigger] b[i] != 1 by {
            assert(b[i] == a[i + 1]);
        }
        lemma_field_ends(b, front.push(a[0]), rest);
        assert(front.push(a[0]) + b =~= front + a);
    }
}

/// The last field ends with the message.
proof fn lemma_last_field(a: Seq<u8>, front: Seq<u8>)
    requires
        unseparated(a),
    ensures
        fields_from(a, front) == seq![front + a],
    decreases a.len(),
{
    if a.len() == 0 {
        assert(front + a =~= front);
    } else {
        let b = a.drop_first();
        assert forall|i: int| 0 <= i < b.len() implies #[trigger] b[i] != 1 by {
            assert(b[i] == a[i + 1]);
        }
        lemma_last_field(b, front.push(a[0]));
        assert(front.push(a[0]) + b =~= front + a);
    }
}

/// A number in decimal has no separator in it.
proof fn lemma_decimal_unseparated(n: nat)
    ensures
        unseparated(utf8::encode_utf8(text::decimal(n))),
{
    let t = text::decimal(n);
    text::lemma_decimal_digits(n);
    assert(utf8::is_ascii_chars(t)) by {
        assert forall|i: int| 0 <= i < t.len() implies '\0' <= #[trigger] t[i] <= '\u{7f}' by {
            assert(text::is_decimal_digit(t[i]));
        }
    }
    utf8::is_ascii_chars_encode_utf8(t);
    let b = utf8::encode_utf8(t);
    assert forall|i: int| 0 <= i < b.len() implies #[trigger] b[i] != 1 by {
        assert(text::is_decimal_digit(t[i]));
        assert(t[i] as u8 == b[i]);
    }
}

/// What a Logon signs are five fields: the letter A, the two ids of the session, the
/// number in decimal and the time, in this order, as long as no field holds a separator.
pub proof fn law_payload_has_five_fields(
    sender: Seq<char>,
    target: Seq<char>,
    msg_seq_num: u32,
    sending_time: Seq<char>,
)
    requires
        unseparated(utf8::encode_utf8(sender)),
        unseparated(utf8::encode_utf8(target)),
        unseparated(utf8::encode_utf8(sending_time)),
    ensures
        fields(auth::logon_payload_spec(sender, target, msg_seq_num, sending_time)) == seq![
            seq![0x41u8],
            utf8::encode_utf8(sender),
            utf8::encode_utf8(target),
            utf8::encode_utf8(text::decimal(msg_seq_num as nat)),
            utf8::encode_utf8(sending_time),
        ],
{
    let (a, b, c, d, e) = (
        seq![0x41u8],
        utf8::encode_utf8(sender),
        utf8::encode_utf8(target),
        utf8::encode_utf8(text::decimal(msg_seq_num as nat)),
        utf8::encode_utf8(sending_time),
    );
    let none = Seq::<u8>::empty();
    lemma_decimal_unseparated(msg_seq_num as nat);
    let r4 = e;
    let r3 = d + seq![1u8] + r4;
    let r2 = c + seq![1u8] + r3;
    let r1 = b + seq![1u8] + r2;
    let all = a + seq![1u8] + r1;
    lemma_last_field(e, none);
    lemma_field_ends(d, none, r4);
    lemma_field_ends(c, none, r3);
    lemma_field_ends(b, none, r2);
    lemma_field_ends(a, none, r1);
    assert(none + a =~= a && none + b =~= b && none + c =~= c && none + d =~= d && none + e =~= e);
    assert(auth::logon_payload_spec(sender, target, msg_seq_num, sending_time) =~= all);
    assert(fields(all) =~= seq![a, b, c, d, e]);
}

/// Two Logons of a session that sign the same message have the same number and time.
pub proof fn law_payload_tells_its_parts_apart(
    sender: Seq<char>,
    target: Seq<char>,
    seq_a: u32,
    seq_b: u32,
    time_a: Seq<char>,
    time_b: Seq<char>,
)
    requires
        unseparated(utf8::encode_utf8(sender)),
        unseparated(utf8::encode_utf8(target)),
        unseparated(utf8::encode_utf8(time_a)),
        unseparated(utf8::encode_utf8(time_b)),
        auth::logon_payload_spec(sender, target, seq_a, time_a) == auth::logon_payload_spec(
            sender,
            target,
            seq_b,
            time_b,
        ),
    ensures
        seq_a == seq_b,
        time_a == time_b,
{
    law_payload_has_five_fields(sender, target, seq_a, time_a);
    law_payload_has_five_fields(sender, target, seq_b, time_b);
    let a = fields(auth::logon_payload_spec(sender, target, seq_a, time_a));
    let b = fields(auth::logon_payload_spec(sender, target, seq_b, time_b));
    assert(a[3] == b[3] && a[4] == b[4]);
    let (m, n) = (text::decimal(seq_a as nat), text::decimal(seq_b as nat));
    utf8::encode_utf8_decode_utf8(time_a);
    utf8::encode_utf8_decode_utf8(time_b);
    utf8::encode_utf8_decode_utf8(m);
    utf8::encode_utf8_decode_utf8(n);
    text::lemma_numeral_unique(seq_a as nat, seq_b as nat, 10);
}

/// The six bits that a character stands for.
pub open spec fn six_bits(c: char) -> int {
    if 'A' <= c <= 'Z' {
        c as int - 'A' as int
    } else if 'a' <= c <= 'z' {
        c as int - 'a' as int + 26
    } else if '0' <= c <= '9' {
        c as int - '0' as int + 52
    } else if c == '+' {
        62
    } else {
        63
    }
}

/// The bytes that a base64 text stands for: four characters stand for three bytes, or
/// for fewer where padding takes the place of the last characters.
pub open spec fn base64_bytes(t: Seq<char>) -> Seq<u8>
    decreases t.len(),
{
    if t.len() < 4 {
        Seq::empty()
    } else {
        let (a, b, c, d) = (six_bits(t[0]), six_bits(t[1]), six_bits(t[2]), six_bits(t[3]));
        let first = seq![(a * 4 + b / 16) as u8];
        let second = if t[2] == '=' {
            Seq::empty()
        } else {
            seq![(b % 16 * 16 + c / 4) as u8]
        };
        let third = if t[3] == '=' {
            Seq::empty()
        } else {
            seq![(c % 4 * 64 + d) as u8]
        };
        first + second + third + base64_bytes(t.skip(4))
    }
}

proof fn lemma_six_bits(v: int)
    requires
        0 <= v < 64,
    ensures
        six_bits(auth::base64_char(v)) == v,
        auth::base64_char(v) != '=',
{
}

/// One group in front of a text stands for its bytes.
proof fn lemma_group(x: int, y: int, z: int, n: int, tail: Seq<char>)
    requires
        0 <= x < 256,
        0 <= y < 256,
        0 <= z < 256,
        1 <= n <= 3,
        n < 2 ==> y == 0,
        n < 3 ==> z == 0,
    ensures
        base64_bytes(auth::base64_group(x, y, z, n) + tail) == (seq![x as u8] + (if n > 1 {
            seq![y as u8]
        } else {
            Seq::empty()
        }) + (if n > 2 {
            seq![z as u8]
        } else {
            Seq::empty()
        })) + base64_bytes(tail),
{
    let group = auth::base64_group(x, y, z, n);
    let t = group + tail;
    lemma_six_bits(x / 4);
    lemma_six_bits(x % 4 * 16 + y / 16);
    lemma_six_bits(y % 16 * 4 + z / 64);
    lemma_six_bits(z % 64);
    assert(group.len() == 4);
    assert(t.skip(4) =~= tail);
    assert(t[0] == group[0] && t[1] == group[1] && t[2] == group[2] && t[3] == group[3]);
    assert(x / 4 * 4 + (x % 4 * 16 + y / 16) / 16 == x);
    assert((x % 4 * 16 + y / 16) % 16 * 16 + (y % 16 * 4 + z / 64) / 4 == y);
    assert((y % 16 * 4 + z / 64) % 4 * 64 + z % 64 == z);
}

/// The text of a signature stands for its bytes.
pub proof fn law_base64_reads_back(bytes: Seq<u8>)
    ensures
        base64_bytes(auth::base64_text(bytes)) == bytes,
    decreases bytes.len(),
{
    let t = auth::base64_text(bytes);
    let n = bytes.len();
    if n == 1 {
        let x = bytes[0] as int;
        lemma_group(x, 0, 0, 1, Seq::empty());
        assert(t + Seq::<char>::empty() =~= t);
        assert(base64_bytes(t) =~= bytes);
    } else if n == 2 {
        let (x, y) = (bytes[0] as int, bytes[1] as int);
        lemma_group(x, y, 0, 2, Seq::empty());
        assert(t + Seq::<char>::empty() =~= t);
        assert(base64_bytes(t) =~= bytes);
    } else if n > 2 {
        let (x, y, z) = (bytes[0] as int, bytes[1] as int, bytes[2] as int);
        lemma_group(x, y, z, 3, auth::base64_text(bytes.skip(3)));
        law_base64_reads_back(bytes.skip(3));
        assert(base64_bytes(t) =~= bytes);
    }
}

} // verus!
