//! What a line of the sidecar says is what was written into it.
use crate::search;
use crate::sidecar;
use crate::sidecar::{HedgeReply, RunningLine, StartupLine};
use crate::text;
use vstd::prelude::*;
use vstd::utf8;

verus! {

/// `key` stands behind `front`, and nowhere before in `s`.
pub open spec fn first_behind(s: Seq<u8>, front: Seq<u8>, key: Seq<u8>) -> bool {
    forall|j: int|
        0 <= j < front.len() && j + key.len() <= s.len() ==> #[trigger] s.subrange(
            j,
            j + key.len(),
        ) != key
}

/// Spaces and tabs alone.
pub open spec fn blanks(s: Seq<u8>) -> bool {
    forall|i: int| 0 <= i < s.len() ==> (#[trigger] s[i] == 32 || s[i] == 9)
}

/// Digits, signs, points and the letters e and E.
pub open spec fn numeric(c: u8) -> bool {
    48 <= c <= 57 || c == 43 || c == 45 || c == 46 || c == 69 || c == 101
}

/// Digits and minus signs.
pub open spec fn integral(c: u8) -> bool {
    48 <= c <= 57 || c == 45
}

/// A run ends in front of the first byte that is not of its class.
proof fn lemma_run(s: Seq<u8>, p: int, q: int, class: spec_fn(u8) -> bool)
    requires
        0 <= p <= q <= s.len(),
        forall|i: int| p <= i < q ==> class(#[trigger] s[i]),
        q == s.len() || !class(s[q]),
    ensures
        sidecar::run_end(s, p, class) == q,
    decreases q - p,
{
    if p < q {
        lemma_run(s, p + 1, q, class);
    }
}

/// A value stands behind the first occurrence of its key and the blanks there.
proof fn lemma_value(s: Seq<u8>, front: Seq<u8>, key: Seq<u8>, gap: Seq<u8>, value: Seq<u8>)
    requires
        s == front + key + gap + value,
        first_behind(s, front, key),
        blanks(gap),
        value.len() > 0 ==> value[0] != 32 && value[0] != 9,
    ensures
        sidecar::value_offset(s, key) == Some(0int + front.len() + key.len() + gap.len()),
{
    let i = front.len() as int;
    assert(s.subrange(i, i + key.len()) =~= key);
    assert(search::occurs_at(s, key, i));
    assert(search::occurs_first_at(s, key, i));
    let first = choose|i: int| search::occurs_first_at(s, key, i);
    search::lemma_first_is_unique(s, key, i, first);
    let q = i + key.len() + gap.len();
    assert forall|k: int| i + key.len() <= k < q implies sidecar::is_blank(#[trigger] s[k]) by {
        assert(s[k] == gap[k - i - key.len()]);
    }
    assert(q < s.len() ==> s[q] == value[0]);
    lemma_run(s, i + key.len(), q, |c: u8| sidecar::is_blank(c));
}

/// A number that was written behind its key, with blanks between them or not, is read
/// as it was written, to its last byte and no further.
pub proof fn law_number_reads_back(
    front: Seq<u8>,
    key: Seq<u8>,
    gap: Seq<u8>,
    number: Seq<u8>,
    back: Seq<u8>,
)
    requires
        first_behind(front + key + gap + number + back, front, key),
        blanks(gap),
        forall|i: int| 0 <= i < number.len() ==> numeric(#[trigger] number[i]),
        back.len() > 0 ==> !numeric(back[0]),
        number.len() == 0 && back.len() > 0 ==> back[0] != 32 && back[0] != 9,
    ensures
        number.len() > 0 ==> sidecar::number_token(front + key + gap + number + back, key) == Some(
            number,
        ),
        number.len() == 0 ==> sidecar::number_token(front + key + gap + number + back, key)
            is None,
{
    let s = front + key + gap + number + back;
    let value = number + back;
    assert(s =~= front + key + gap + value);
    if number.len() > 0 {
        assert(numeric(number[0]));
    }
    lemma_value(s, front, key, gap, value);
    let p = 0int + front.len() + key.len() + gap.len();
    let q = p + number.len();
    assert forall|k: int| p <= k < q implies sidecar::is_number_byte(#[trigger] s[k]) by {
        assert(s[k] == number[k - p]);
    }
    assert(q < s.len() ==> s[q] == back[0]);
    lemma_run(s, p, q, |c: u8| sidecar::is_number_byte(c));
    assert(s.subrange(p, q) =~= number);
}

/// A line without the key has no value for it, of any kind.
pub proof fn law_no_key_no_value(s: Seq<u8>, key: Seq<u8>, t: Seq<u8>)
    requires
        forall|j: int|
            0 <= j && j + key.len() <= s.len() ==> #[trigger] s.subrange(j, j + key.len()) != key,
    ensures
        sidecar::number_token(s, key) is None,
        sidecar::int_field(s, key) is None,
        !sidecar::str_token(s, key, t),
{
}

/// A text in quotes that was written behind its key, with blanks between them or not,
/// is read as it was written, and as nothing else.
pub proof fn law_text_reads_back(
    front: Seq<u8>,
    key: Seq<u8>,
    gap: Seq<u8>,
    text: Seq<u8>,
    back: Seq<u8>,
    t: Seq<u8>,
)
    requires
        first_behind(
            front + key + gap + seq![34u8] + text + seq![34u8] + back,
            front,
            key,
        ),
        blanks(gap),
        forall|i: int| 0 <= i < text.len() ==> #[trigger] text[i] != 34,
    ensures
        sidecar::str_token(
            front + key + gap + seq![34u8] + text + seq![34u8] + back,
            key,
            t,
        ) <==> t == text,
{
    let s = front + key + gap + seq![34u8] + text + seq![34u8] + back;
    let value = seq![34u8] + text + seq![34u8] + back;
    assert(s =~= front + key + gap + value);
    lemma_value(s, front, key, gap, value);
    let p = 0int + front.len() + key.len() + gap.len();
    assert(s.subrange(p + 1, p + 1 + text.len()) =~= text);
    assert(s[p] == 34 && s[p + 1 + text.len()] == 34);
    if sidecar::str_token(s, key, t) {
        assert forall|i: int| 0 <= i < t.len() implies s[p + 1 + i] == #[trigger] t[i] by {}
        assert forall|i: int| 0 <= i < text.len() implies s[p + 1 + i] == #[trigger] text[i] by {}
        if t.len() < text.len() {
            assert(text[t.len() as int] == 34);
        }
        if t.len() > text.len() {
            assert(t[text.len() as int] == 34);
        }
        assert(t =~= text);
    }
}

/// A value that does not start with a quote, or whose closing quote is missing, is no
/// text.
pub proof fn law_unquoted_is_no_text(
    front: Seq<u8>,
    key: Seq<u8>,
    gap: Seq<u8>,
    value: Seq<u8>,
    t: Seq<u8>,
)
    requires
        first_behind(front + key + gap + value, front, key),
        blanks(gap),
        value.len() > 0 ==> value[0] != 32 && value[0] != 9,
        value.len() > 0 && value[0] == 34 ==> forall|i: int|
            0 < i < value.len() ==> #[trigger] value[i] != 34,
    ensures
        !sidecar::str_token(front + key + gap + value, key, t),
{
    let s = front + key + gap + value;
    lemma_value(s, front, key, gap, value);
    let p = 0int + front.len() + key.len() + gap.len();
    if sidecar::str_token(s, key, t) {
        assert(s[p] == value[0]);
        assert(s[p + 1 + t.len()] == value[1int + t.len()]);
    }
}

/// A number in decimal digits.
pub open spec fn in_digits(n: nat) -> Seq<u8>
    decreases n,
{
    if n < 10 {
        seq![(48 + n) as u8]
    } else {
        in_digits(n / 10).push((48 + n % 10) as u8)
    }
}

/// An integer in decimal, with a minus sign where it is negative.
pub open spec fn in_decimal(v: int) -> Seq<u8> {
    if v < 0 {
        seq![45u8] + in_digits((-v) as nat)
    } else {
        in_digits(v as nat)
    }
}

proof fn lemma_in_digits(n: nat)
    ensures
        in_digits(n).len() > 0,
        sidecar::all_digits(in_digits(n)),
        sidecar::digits_value(in_digits(n)) == n,
        48 <= in_digits(n)[0] <= 57,
        n > 0 ==> in_digits(n)[0] != 48,
    decreases n,
{
    let d = in_digits(n);
    if n < 10 {
        assert(d.drop_last() =~= Seq::<u8>::empty());
        assert(sidecar::digits_value(d.drop_last()) == 0);
        assert(sidecar::digits_value(d) == n);
    } else {
        lemma_in_digits(n / 10);
        assert(d.drop_last() =~= in_digits(n / 10));
        assert(d.last() == 48 + n % 10);
        assert(d[0] == in_digits(n / 10)[0]);
        assert forall|i: int| 0 <= i < d.len() implies sidecar::is_digit(#[trigger] d[i]) by {
            if i < d.len() - 1 {
                assert(d[i] == in_digits(n / 10)[i]);
            }
        }
    }
}

/// Every integer of 64 bits that was written in decimal behind its key is read as the
/// integer it is.
pub proof fn law_integer_reads_back(
    front: Seq<u8>,
    key: Seq<u8>,
    gap: Seq<u8>,
    v: i64,
    back: Seq<u8>,
)
    requires
        first_behind(front + key + gap + in_decimal(v as int) + back, front, key),
        blanks(gap),
        back.len() > 0 ==> !integral(back[0]),
    ensures
        sidecar::int_field(front + key + gap + in_decimal(v as int) + back, key) == Some(v),
{
    let t = in_decimal(v as int);
    let s = front + key + gap + t + back;
    let value = t + back;
    let n = if v < 0 {
        -v as nat
    } else {
        v as nat
    };
    lemma_in_digits(n);
    if v < 0 {
        assert(t.skip(1) =~= in_digits(n));
    }
    assert(sidecar::unsigned_part(t) == in_digits(n));
    assert(s =~= front + key + gap + value);
    assert(value[0] == t[0]);
    lemma_value(s, front, key, gap, value);
    let p = 0int + front.len() + key.len() + gap.len();
    let q = p + t.len();
    assert forall|k: int| p <= k < q implies sidecar::is_int_byte(#[trigger] s[k]) by {
        assert(s[k] == t[k - p]);
        if v < 0 && k > p {
            assert(t[k - p] == in_digits(n)[k - p - 1]);
        }
    }
    assert(q < s.len() ==> s[q] == back[0]);
    lemma_run(s, p, q, |c: u8| sidecar::is_int_byte(c));
    assert(s.subrange(p, q) =~= t);
}

/// A text without a digit is no integer, nor is one with anything but digits behind a
/// minus sign that may start it.
pub proof fn law_no_integer(t: Seq<u8>, i: int)
    requires
        t.len() == 0 || t == seq![45u8] || (0 <= i < t.len() && !(48 <= t[i] <= 57) && !(i == 0
            && t[i] == 45)),
    ensures
        sidecar::int_value(t) is None,
{
    if 0 <= i < t.len() && !(48 <= t[i] <= 57) && !(i == 0 && t[i] == 45) {
        if t[0] == 45 {
            assert(t.skip(1)[i - 1] == t[i]);
        }
    }
}

/// An integer that 64 bits do not hold is not read.
pub proof fn law_integers_have_64_bits(v: int)
    ensures
        sidecar::int_value(in_decimal(v)) is Some <==> -0x8000_0000_0000_0000 <= v
            <= 0x7fff_ffff_ffff_ffff,
{
    let t = in_decimal(v);
    let n = if v < 0 {
        -v as nat
    } else {
        v as nat
    };
    lemma_in_digits(n);
    if v < 0 {
        assert(t.skip(1) =~= in_digits(n));
    }
}

/// The bytes of a text of ASCII characters are their codes.
proof fn lemma_ascii(t: Seq<char>, b: Seq<u8>)
    requires
        t.len() == b.len(),
        forall|i: int| 0 <= i < t.len() ==> '\0' <= #[trigger] t[i] <= '\u{7f}' && b[i] == t[i] as u8,
    ensures
        utf8::encode_utf8(t) == b,
{
    assert(utf8::is_ascii_chars(t));
    utf8::is_ascii_chars_encode_utf8(t);
    let e = utf8::encode_utf8(t);
    assert forall|i: int| 0 <= i < b.len() implies e[i] == b[i] by {
        assert(t[i] as u8 == e[i]);
    }
    assert(e =~= b);
}

/// The keys of a quote and of a reply, as bytes.
proof fn lemma_keys()
    ensures
        search::bytes_of("\"bid\":") == seq![34u8, 98, 105, 100, 34, 58],
        search::bytes_of("\"ask\":") == seq![34u8, 97, 115, 107, 34, 58],
        search::bytes_of("\"qty\":") == seq![34u8, 113, 116, 121, 34, 58],
        search::bytes_of("\"px\":") == seq![34u8, 112, 120, 34, 58],
        search::bytes_of("\"id\":") == seq![34u8, 105, 100, 34, 58],
        search::bytes_of("\"err\":") == seq![34u8, 101, 114, 114, 34, 58],
        search::bytes_of("\"ok\":true") == seq![34u8, 111, 107, 34, 58, 116, 114, 117, 101],
        search::bytes_of("\"ok\": true") == seq![34u8, 111, 107, 34, 58, 32, 116, 114, 117, 101],
        search::bytes_of("\"bbo\":true") == seq![34u8, 98, 98, 111, 34, 58, 116, 114, 117, 101],
        search::bytes_of("\"bbo\": true") == seq![
            34u8, 98, 98, 111, 34, 58, 32, 116, 114, 117, 101,
        ],
        search::bytes_of("\"bbo\"") == seq![34u8, 98, 98, 111, 34],
        search::bytes_of("\"ready\"") == seq![34u8, 114, 101, 97, 100, 121, 34],
        search::bytes_of("true") == seq![116u8, 114, 117, 101],
{
    reveal_strlit("\"bid\":");
    lemma_ascii("\"bid\":"@, seq![34u8, 98, 105, 100, 34, 58]);
    reveal_strlit("\"ask\":");
    lemma_ascii("\"ask\":"@, seq![34u8, 97, 115, 107, 34, 58]);
    reveal_strlit("\"qty\":");
    lemma_ascii("\"qty\":"@, seq![34u8, 113, 116, 121, 34, 58]);
    reveal_strlit("\"px\":");
    lemma_ascii("\"px\":"@, seq![34u8, 112, 120, 34, 58]);
    reveal_strlit("\"id\":");
    lemma_ascii("\"id\":"@, seq![34u8, 105, 100, 34, 58]);
    reveal_strlit("\"err\":");
    lemma_ascii("\"err\":"@, seq![34u8, 101, 114, 114, 34, 58]);
    reveal_strlit("\"ok\":true");
    lemma_ascii("\"ok\":true"@, seq![34u8, 111, 107, 34, 58, 116, 114, 117, 101]);
    reveal_strlit("\"ok\": true");
    lemma_ascii("\"ok\": true"@, seq![34u8, 111, 107, 34, 58, 32, 116, 114, 117, 101]);
    reveal_strlit("\"bbo\":true");
    lemma_ascii("\"bbo\":true"@, seq![34u8, 98, 98, 111, 34, 58, 116, 114, 117, 101]);
    reveal_strlit("\"bbo\": true");
    lemma_ascii("\"bbo\": true"@, seq![34u8, 98, 98, 111, 34, 58, 32, 116, 114, 117, 101]);
    reveal_strlit("\"bbo\"");
    lemma_ascii("\"bbo\""@, seq![34u8, 98, 98, 111, 34]);
    reveal_strlit("\"ready\"");
    lemma_ascii("\"ready\""@, seq![34u8, 114, 101, 97, 100, 121, 34]);
    reveal_strlit("true");
    lemma_ascii("true"@, seq![116u8, 114, 117, 101]);
}

/// A quote is told by the first number behind each of its keys, the bid by that of the
/// bid and the ask by that of the ask.
pub proof fn law_quote_reads_back(
    line: Seq<u8>,
    bid_front: Seq<u8>,
    bid: Seq<u8>,
    bid_back: Seq<u8>,
    ask_front: Seq<u8>,
    ask: Seq<u8>,
    ask_back: Seq<u8>,
)
    requires
        line == bid_front + seq![34u8, 98, 105, 100, 34, 58] + bid + bid_back,
        line == ask_front + seq![34u8, 97, 115, 107, 34, 58] + ask + ask_back,
        first_behind(line, bid_front, seq![34u8, 98, 105, 100, 34, 58]),
        first_behind(line, ask_front, seq![34u8, 97, 115, 107, 34, 58]),
        bid.len() > 0 && forall|i: int| 0 <= i < bid.len() ==> numeric(#[trigger] bid[i]),
        ask.len() > 0 && forall|i: int| 0 <= i < ask.len() ==> numeric(#[trigger] ask[i]),
        bid_back.len() > 0 ==> !numeric(bid_back[0]),
        ask_back.len() > 0 ==> !numeric(ask_back[0]),
    ensures
        sidecar::bbo_texts(line) == Some((bid, ask)),
{
    let none = Seq::<u8>::empty();
    let (b, a) = (seq![34u8, 98, 105, 100, 34, 58], seq![34u8, 97, 115, 107, 34, 58]);
    lemma_keys();
    assert(line =~= bid_front + b + none + bid + bid_back);
    assert(line =~= ask_front + a + none + ask + ask_back);
    law_number_reads_back(bid_front, b, none, bid, bid_back);
    law_number_reads_back(ask_front, a, none, ask, ask_back);
}

/// A line without a bid, or without an ask, tells of no quote.
pub proof fn law_quotes_have_two_sides(line: Seq<u8>, key: Seq<u8>)
    requires
        key == seq![34u8, 98, 105, 100, 34, 58] || key == seq![34u8, 97, 115, 107, 34, 58],
        forall|j: int|
            0 <= j && j + key.len() <= line.len() ==> #[trigger] line.subrange(j, j + key.len())
                != key,
    ensures
        sidecar::bbo_texts(line) is None,
{
    lemma_keys();
    law_no_key_no_value(line, key, Seq::empty());
}

/// A text stands in a line exactly where the line is that text with something, or
/// nothing, on either side of it.
pub proof fn law_occurrence(front: Seq<u8>, needle: Seq<u8>, back: Seq<u8>)
    ensures
        search::occurs(front + needle + back, needle),
        search::is_suffix(needle, front + needle),
{
    let s = front + needle + back;
    assert(s.subrange(front.len() as int, 0int + front.len() + needle.len()) =~= needle);
    assert(search::occurs_at(s, needle, front.len() as int));
    assert((front + needle).skip(front.len() as int) =~= needle);
}

/// Where a text stands in a line, or ends it, the line can be cut there.
pub proof fn law_occurrence_splits(s: Seq<u8>, needle: Seq<u8>)
    ensures
        search::occurs(s, needle) ==> exists|front: Seq<u8>, back: Seq<u8>|
            s == #[trigger] (front + needle + back),
        search::is_suffix(needle, s) ==> exists|front: Seq<u8>| s == #[trigger] (front + needle),
{
    if search::occurs(s, needle) {
        let i = choose|i: int| search::occurs_at(s, needle, i);
        assert(s =~= s.take(i) + needle + s.skip(i + needle.len()));
    }
    if search::is_suffix(needle, s) {
        assert(s =~= s.take(s.len() - needle.len()) + needle);
    }
}

/// The id of a reply is the number behind its key; a negative one counts from the top.
pub proof fn law_reply_has_its_id(
    r: HedgeReply,
    front: Seq<u8>,
    gap: Seq<u8>,
    id: i64,
    back: Seq<u8>,
)
    requires
        ({
            let key = seq![34u8, 105, 100, 34, 58];
            let line = front + key + gap + in_decimal(id as int) + back;
            first_behind(line, front, key) && r.told_by(line)
        }),
        blanks(gap),
        back.len() > 0 ==> !integral(back[0]),
    ensures
        r.id == if id >= 0 {
            id as int
        } else {
            id + 0x1_0000_0000_0000_0000
        },
{
    lemma_keys();
    law_integer_reads_back(front, seq![34u8, 105, 100, 34, 58], gap, id, back);
}

/// The quantity and the price of a reply are the numbers behind their keys, each behind
/// its own, and its error the text behind its key.
pub proof fn law_reply_has_its_values(
    r: HedgeReply,
    line: Seq<u8>,
    front: Seq<u8>,
    gap: Seq<u8>,
    value: Seq<u8>,
    back: Seq<u8>,
)
    requires
        r.told_by(line),
        blanks(gap),
        value.len() > 0,
    ensures
        ({
            let key = seq![34u8, 113, 116, 121, 34, 58];
            &&& line == front + key + gap + value + back
            &&& first_behind(line, front, key)
            &&& forall|i: int| 0 <= i < value.len() ==> numeric(#[trigger] value[i])
            &&& back.len() > 0 ==> !numeric(back[0])
        }) ==> r.qty is Some && r.qty->0@ == value,
        ({
            let key = seq![34u8, 112, 120, 34, 58];
            &&& line == front + key + gap + value + back
            &&& first_behind(line, front, key)
            &&& forall|i: int| 0 <= i < value.len() ==> numeric(#[trigger] value[i])
            &&& back.len() > 0 ==> !numeric(back[0])
        }) ==> r.px is Some && r.px->0@ == value,
        ({
            let key = seq![34u8, 101, 114, 114, 34, 58];
            &&& line == front + key + gap + seq![34u8] + value + seq![34u8] + back
            &&& first_behind(line, front, key)
            &&& forall|i: int| 0 <= i < value.len() ==> #[trigger] value[i] != 34
        }) ==> r.err is Some && r.err->0@ == value,
{
    lemma_keys();
    let qty = seq![34u8, 113, 116, 121, 34, 58];
    let px = seq![34u8, 112, 120, 34, 58];
    let err = seq![34u8, 101, 114, 114, 34, 58];
    let ends = back.len() > 0 ==> !numeric(back[0]);
    let num = forall|i: int| 0 <= i < value.len() ==> numeric(#[trigger] value[i]);
    if line == front + qty + gap + value + back && first_behind(line, front, qty) && num && ends {
        law_number_reads_back(front, qty, gap, value, back);
    }
    if line == front + px + gap + value + back && first_behind(line, front, px) && num && ends {
        law_number_reads_back(front, px, gap, value, back);
    }
    if line == front + err + gap + seq![34u8] + value + seq![34u8] + back && first_behind(
        line,
        front,
        err,
    ) && (forall|i: int| 0 <= i < value.len() ==> #[trigger] value[i] != 34) {
        law_text_reads_back(front, err, gap, value, back, value);
        if let Some(t) = r.err {
            law_text_reads_back(front, err, gap, value, back, t@);
        }
    }
}

/// What a line does not say of a hedge, its reply does not hold.
pub proof fn law_reply_holds_no_more(r: HedgeReply, line: Seq<u8>, key: Seq<u8>)
    requires
        r.told_by(line),
        forall|j: int|
            0 <= j && j + key.len() <= line.len() ==> #[trigger] line.subrange(j, j + key.len())
                != key,
    ensures
        key != seq![34u8, 105, 100, 34, 58],
        key == seq![34u8, 113, 116, 121, 34, 58] ==> r.qty is None,
        key == seq![34u8, 112, 120, 34, 58] ==> r.px is None,
        key == seq![34u8, 101, 114, 114, 34, 58] ==> r.err is None,
{
    lemma_keys();
    law_no_key_no_value(line, key, Seq::empty());
    if let Some(t) = r.err {
        law_no_key_no_value(line, key, t@);
    }
}

/// A reply is one of success exactly where its line says `"ok":true`, with a blank
/// behind the colon or without.
pub proof fn law_reply_of_success(r: HedgeReply, line: Seq<u8>)
    requires
        r.told_by(line),
    ensures
        r.ok <==> search::occurs(line, seq![34u8, 111, 107, 34, 58, 116, 114, 117, 101])
            || search::occurs(line, seq![34u8, 111, 107, 34, 58, 32, 116, 114, 117, 101]),
{
    lemma_keys();
}

/// Before the sidecar is ready, a line that speaks of it says that it is exactly where
/// it also says `true`; any other line is a quote exactly where it is marked as one and
/// has both prices, and those are its prices.
pub proof fn law_startup_lines(line: Seq<u8>, res: StartupLine)
    requires
        sidecar::startup_told(line, res),
    ensures
        ({
            let ready = search::occurs(line, seq![34u8, 114, 101, 97, 100, 121, 34]);
            let yes = search::occurs(line, seq![116u8, 114, 117, 101]);
            let marked = search::occurs(line, seq![34u8, 98, 98, 111, 34]);
            &&& res is Ready <==> ready && yes
            &&& res is NotReady <==> ready && !yes
            &&& res is Bbo <==> !ready && marked && sidecar::bbo_texts(line) is Some
            &&& res matches StartupLine::Bbo(t) ==> sidecar::bbo_texts(line) == Some(
                (t.bid@, t.ask@),
            )
        }),
{
    lemma_keys();
}

/// Once the sidecar is ready, a line is a quote exactly where it says `"bbo":true`, with
/// a blank behind the colon or without; any other line answers the request whose id it
/// has, and none where it has no id.
pub proof fn law_running_lines(line: Seq<u8>, res: RunningLine)
    requires
        sidecar::running_told(line, res),
    ensures
        ({
            let quote = search::occurs(
                line,
                seq![34u8, 98, 98, 111, 34, 58, 116, 114, 117, 101],
            ) || search::occurs(line, seq![34u8, 98, 98, 111, 34, 58, 32, 116, 114, 117, 101]);
            let id = sidecar::int_field(line, seq![34u8, 105, 100, 34, 58]);
            &&& res is Bbo <==> quote
            &&& res is Reply <==> !quote && id is Some
            &&& res matches RunningLine::Reply(r) ==> r.told_by(line)
            &&& res matches RunningLine::Bbo(Some(t)) ==> sidecar::bbo_texts(line) == Some(
                (t.bid@, t.ask@),
            )
            &&& res matches RunningLine::Bbo(None) ==> sidecar::bbo_texts(line) is None
        }),
{
    lemma_keys();
}

/// The bytes of two texts are those of the one and then those of the other.
proof fn lemma_bytes_of_both(a: Seq<char>, b: Seq<char>)
    ensures
        utf8::encode_utf8(a + b) == utf8::encode_utf8(a) + utf8::encode_utf8(b),
    decreases a.len(),
{
    if a.len() == 0 {
        assert(a + b =~= b);
        assert(utf8::encode_utf8(a) =~= Seq::<u8>::empty());
    } else {
        assert((a + b).drop_first() =~= a.drop_first() + b);
        lemma_bytes_of_both(a.drop_first(), b);
    }
    assert(utf8::encode_utf8(a + b) =~= utf8::encode_utf8(a) + utf8::encode_utf8(b));
}

/// A number in decimal as a text and as bytes.
proof fn lemma_decimal_bytes(n: nat)
    ensures
        utf8::encode_utf8(text::decimal(n)) == in_digits(n),
    decreases n,
{
    text::lemma_decimal_digits(n);
    if n < 10 {
        assert(text::decimal(n) =~= seq![text::digit(n as int)]);
    } else {
        lemma_decimal_bytes(n / 10);
        let last = seq![text::digit((n % 10) as int)];
        assert(text::decimal(n) =~= text::decimal(n / 10) + last);
        lemma_bytes_of_both(text::decimal(n / 10), last);
        lemma_ascii(last, seq![(48 + n % 10) as u8]);
        assert(in_digits(n) =~= in_digits(n / 10) + seq![(48 + n % 10) as u8]);
    }
    if n < 10 {
        lemma_ascii(text::decimal(n), in_digits(n));
    }
}

/// The bytes of a request, piece by piece.
#[verifier::opaque]
spec fn request_bytes(n: Seq<u8>, side: Seq<u8>, qty: Seq<u8>, px: Seq<u8>) -> Seq<u8> {
    seq![123u8, 34, 105, 100, 34, 58] + n + seq![44u8, 34, 115, 105, 100, 101, 34, 58, 34] + side
        + seq![34u8, 44, 34, 113, 116, 121, 34, 58] + qty + seq![
        44u8, 34, 114, 101, 102, 95, 112, 114, 105, 99, 101, 34, 58,
    ] + px + seq![125u8, 10]
}

proof fn lemma_request_bytes(id: u64, side: Seq<char>, qty: Seq<char>, ref_price: Seq<char>)
    ensures
        utf8::encode_utf8(sidecar::request_text(id, side, qty, ref_price)) == request_bytes(
            in_digits(id as nat),
            utf8::encode_utf8(side),
            utf8::encode_utf8(qty),
            utf8::encode_utf8(ref_price),
        ),
{
    reveal(request_bytes);
    reveal_strlit("{\"id\":");
    lemma_ascii("{\"id\":"@, seq![123u8, 34, 105, 100, 34, 58]);
    reveal_strlit(",\"side\":\"");
    lemma_ascii(",\"side\":\""@, seq![44u8, 34, 115, 105, 100, 101, 34, 58, 34]);
    reveal_strlit("\",\"qty\":");
    lemma_ascii("\",\"qty\":"@, seq![34u8, 44, 34, 113, 116, 121, 34, 58]);
    reveal_strlit(",\"ref_price\":");
    lemma_ascii(
        ",\"ref_price\":"@,
        seq![44u8, 34, 114, 101, 102, 95, 112, 114, 105, 99, 101, 34, 58],
    );
    reveal_strlit("}\n");
    lemma_ascii("}\n"@, seq![125u8, 10]);
    lemma_decimal_bytes(id as nat);
    let t1 = "{\"id\":"@ + text::decimal(id as nat);
    let t2 = t1 + ",\"side\":\""@;
    let t3 = t2 + side;
    let t4 = t3 + "\",\"qty\":"@;
    let t5 = t4 + qty;
    let t6 = t5 + ",\"ref_price\":"@;
    let t7 = t6 + ref_price;
    lemma_bytes_of_both("{\"id\":"@, text::decimal(id as nat));
    lemma_bytes_of_both(t1, ",\"side\":\""@);
    lemma_bytes_of_both(t2, side);
    lemma_bytes_of_both(t3, "\",\"qty\":"@);
    lemma_bytes_of_both(t4, qty);
    lemma_bytes_of_both(t5, ",\"ref_price\":"@);
    lemma_bytes_of_both(t6, ref_price);
    lemma_bytes_of_both(t7, "}\n"@);
}

/// Where each piece of a request stands.
proof fn lemma_request_pieces(n: Seq<u8>, side: Seq<u8>, qty: Seq<u8>, px: Seq<u8>, s: Seq<u8>)
    requires
        s == request_bytes(n, side, qty, px),
    ensures
        ({
            let a = 6int + n.len();
            let b = a + 9 + side.len();
            let c = b + 8 + qty.len();
            let d = c + 13 + px.len();
            &&& s.len() == d + 2
            &&& s.subrange(0, 6) == seq![123u8, 34, 105, 100, 34, 58]
            &&& s.subrange(6, a) == n
            &&& s.subrange(a, a + 9) == seq![44u8, 34, 115, 105, 100, 101, 34, 58, 34]
            &&& s.subrange(a + 9, b) == side
            &&& s.subrange(b, b + 8) == seq![34u8, 44, 34, 113, 116, 121, 34, 58]
            &&& s.subrange(b + 8, c) == qty
            &&& s.subrange(c, c + 13) == seq![
                44u8, 34, 114, 101, 102, 95, 112, 114, 105, 99, 101, 34, 58,
            ]
            &&& s.subrange(c + 13, d) == px
            &&& s.subrange(d, d + 2) == seq![125u8, 10]
        }),
{
    reveal(request_bytes);
    let a = 6int + n.len();
    let b = a + 9 + side.len();
    let c = b + 8 + qty.len();
    let d = c + 13 + px.len();
    assert(s.subrange(0, 6) =~= seq![123u8, 34, 105, 100, 34, 58]);
    assert(s.subrange(6, a) =~= n);
    assert(s.subrange(a, a + 9) =~= seq![44u8, 34, 115, 105, 100, 101, 34, 58, 34]);
    assert(s.subrange(a + 9, b) =~= side);
    assert(s.subrange(b, b + 8) =~= seq![34u8, 44, 34, 113, 116, 121, 34, 58]);
    assert(s.subrange(b + 8, c) =~= qty);
    assert(s.subrange(c, c + 13) =~= seq![
        44u8, 34, 114, 101, 102, 95, 112, 114, 105, 99, 101, 34, 58,
    ]);
    assert(s.subrange(c + 13, d) =~= px);
    assert(s.subrange(d, d + 2) =~= seq![125u8, 10]);
}

/// What a text in quotes is, and what the texts of two numbers are.
pub open spec fn request_parts(side: Seq<u8>, qty: Seq<u8>, px: Seq<u8>) -> bool {
    &&& forall|i: int| 0 <= i < side.len() ==> #[trigger] side[i] != 34 && side[i] != 10
    &&& qty.len() > 0 && forall|i: int| 0 <= i < qty.len() ==> numeric(#[trigger] qty[i])
    &&& px.len() > 0 && forall|i: int| 0 <= i < px.len() ==> numeric(#[trigger] px[i])
}

/// Every byte of a request, one by one.
proof fn lemma_request_byte(
    n: Seq<u8>,
    side: Seq<u8>,
    qty: Seq<u8>,
    px: Seq<u8>,
    s: Seq<u8>,
    j: int,
)
    requires
        s == request_bytes(n, side, qty, px),
        sidecar::all_digits(n),
        request_parts(side, qty, px),
        0 <= j < s.len(),
    ensures
        ({
            let a = 6int + n.len();
            let b = a + 9 + side.len();
            let c = b + 8 + qty.len();
            let d = c + 13 + px.len();
            &&& s[j] == 34 ==> j == 1 || j == 4 || j == a + 1 || j == a + 6 || j == a + 8 || j == b
                || j == b + 2 || j == b + 6 || j == c + 1 || j == c + 11
            &&& s[j] == 10 ==> j == d + 1
        }),
{
    let a = 6int + n.len();
    let b = a + 9 + side.len();
    let c = b + 8 + qty.len();
    let d = c + 13 + px.len();
    lemma_request_pieces(n, side, qty, px, s);
    if j < 6 {
        assert(s[j] == s.subrange(0, 6)[j]);
    } else if j < a {
        assert(s[j] == s.subrange(6, a)[j - 6]);
        assert(sidecar::is_digit(n[j - 6]));
    } else if j < a + 9 {
        assert(s[j] == s.subrange(a, a + 9)[j - a]);
    } else if j < b {
        assert(s[j] == s.subrange(a + 9, b)[j - a - 9]);
        assert(side[j - a - 9] != 34);
    } else if j < b + 8 {
        assert(s[j] == s.subrange(b, b + 8)[j - b]);
    } else if j < c {
        assert(s[j] == s.subrange(b + 8, c)[j - b - 8]);
        assert(numeric(qty[j - b - 8]));
    } else if j < c + 13 {
        assert(s[j] == s.subrange(c, c + 13)[j - c]);
    } else if j < d {
        assert(s[j] == s.subrange(c + 13, d)[j - c - 13]);
        assert(numeric(px[j - c - 13]));
    } else {
        assert(s[j] == s.subrange(d, d + 2)[j - d]);
    }
}

/// The key of the id stands nowhere before the id.
proof fn lemma_id_key(n: Seq<u8>, side: Seq<u8>, qty: Seq<u8>, px: Seq<u8>, s: Seq<u8>)
    requires
        s == request_bytes(n, side, qty, px),
        sidecar::all_digits(n),
        request_parts(side, qty, px),
    ensures
        first_behind(s, s.take(1), seq![34u8, 105, 100, 34, 58]),
{
    let a = 6int + n.len();
    let b = a + 9 + side.len();
    let c = b + 8 + qty.len();
    let key = seq![34u8, 105, 100, 34, 58];
    lemma_request_pieces(n, side, qty, px, s);
    assert(s[0] == s.subrange(0, 6)[0]);
    assert forall|j: int|
        0 <= j < 1 && j + key.len() <= s.len() implies #[trigger] s.subrange(
        j,
        j + key.len(),
    ) != key by {
        let w = s.subrange(j, j + key.len());
        assert(w[0] == s[j]);
        lemma_request_byte(n, side, qty, px, s, j);
    }
}

/// The key of the side stands nowhere before the side.
proof fn lemma_side_key(n: Seq<u8>, side: Seq<u8>, qty: Seq<u8>, px: Seq<u8>, s: Seq<u8>)
    requires
        s == request_bytes(n, side, qty, px),
        sidecar::all_digits(n),
        request_parts(side, qty, px),
    ensures
        first_behind(s, s.take(7int + n.len()), seq![34u8, 115, 105, 100, 101, 34, 58]),
{
    let a = 6int + n.len();
    let b = a + 9 + side.len();
    let c = b + 8 + qty.len();
    let key = seq![34u8, 115, 105, 100, 101, 34, 58];
    lemma_request_pieces(n, side, qty, px, s);
    assert(s[2] == s.subrange(0, 6)[2]);
    assert(s[5] == s.subrange(0, 6)[5]);
    assert forall|j: int|
        0 <= j < a + 1 && j + key.len() <= s.len() implies #[trigger] s.subrange(
        j,
        j + key.len(),
    ) != key by {
        let w = s.subrange(j, j + key.len());
        assert(w[0] == s[j] && w[1] == s[j + 1]);
        lemma_request_byte(n, side, qty, px, s, j);
    }
}

/// The key of the quantity stands nowhere before the quantity.
proof fn lemma_qty_key(n: Seq<u8>, side: Seq<u8>, qty: Seq<u8>, px: Seq<u8>, s: Seq<u8>)
    requires
        s == request_bytes(n, side, qty, px),
        sidecar::all_digits(n),
        request_parts(side, qty, px),
    ensures
        first_behind(s, s.take(17int + n.len() + side.len()), seq![34u8, 113, 116, 121, 34, 58]),
{
    let a = 6int + n.len();
    let b = a + 9 + side.len();
    let c = b + 8 + qty.len();
    let key = seq![34u8, 113, 116, 121, 34, 58];
    lemma_request_pieces(n, side, qty, px, s);
    assert(s[2] == s.subrange(0, 6)[2]);
    assert(s[5] == s.subrange(0, 6)[5]);
    assert(s[a + 2] == s.subrange(a, a + 9)[2]);
    assert(s[a + 7] == s.subrange(a, a + 9)[7]);
    assert(s[b] == s.subrange(b, b + 8)[0]);
    assert(s[b + 1] == s.subrange(b, b + 8)[1]);
    assert forall|j: int|
        0 <= j < b + 2 && j + key.len() <= s.len() implies #[trigger] s.subrange(
        j,
        j + key.len(),
    ) != key by {
        let w = s.subrange(j, j + key.len());
        assert(w[0] == s[j] && w[1] == s[j + 1] && w[2] == s[j + 2] && w[3] == s[j + 3] && w[4] == s[j + 4] && w[5] == s[j + 5]);
        lemma_request_byte(n, side, qty, px, s, j);
        lemma_request_byte(n, side, qty, px, s, j + 4);
    }
}

/// The key of the price stands nowhere before the price.
proof fn lemma_price_key(n: Seq<u8>, side: Seq<u8>, qty: Seq<u8>, px: Seq<u8>, s: Seq<u8>)
    requires
        s == request_bytes(n, side, qty, px),
        sidecar::all_digits(n),
        request_parts(side, qty, px),
    ensures
        first_behind(s, s.take(24int + n.len() + side.len() + qty.len()), seq![34u8, 114, 101, 102, 95, 112, 114, 105, 99, 101, 34, 58]),
{
    let a = 6int + n.len();
    let b = a + 9 + side.len();
    let c = b + 8 + qty.len();
    let key = seq![34u8, 114, 101, 102, 95, 112, 114, 105, 99, 101, 34, 58];
    lemma_request_pieces(n, side, qty, px, s);
    assert(s[2] == s.subrange(0, 6)[2]);
    assert(s[5] == s.subrange(0, 6)[5]);
    assert(s[a + 2] == s.subrange(a, a + 9)[2]);
    assert(s[a + 7] == s.subrange(a, a + 9)[7]);
    assert(s[b] == s.subrange(b, b + 8)[0]);
    assert(s[b + 1] == s.subrange(b, b + 8)[1]);
    assert(s[b + 3] == s.subrange(b, b + 8)[3]);
    assert(s[b + 7] == s.subrange(b, b + 8)[7]);
    assert forall|j: int|
        0 <= j < c + 1 && j + key.len() <= s.len() implies #[trigger] s.subrange(
        j,
        j + key.len(),
    ) != key by {
        let w = s.subrange(j, j + key.len());
        assert(w[0] == s[j] && w[1] == s[j + 1] && w[2] == s[j + 2] && w[3] == s[j + 3] && w[4] == s[j + 4] && w[5] == s[j + 5] && w[6] == s[j + 6] && w[7] == s[j + 7] && w[8] == s[j + 8] && w[9] == s[j + 9] && w[10] == s[j + 10] && w[11] == s[j + 11]);
        lemma_request_byte(n, side, qty, px, s, j);
        lemma_request_byte(n, side, qty, px, s, j + 10);
    }
}

/// A string around a key and its value.
proof fn lemma_cut(s: Seq<u8>, p: int, key: Seq<u8>, value: Seq<u8>)
    requires
        0 <= p,
        p + key.len() + value.len() <= s.len(),
        forall|i: int| 0 <= i < key.len() ==> s[p + i] == #[trigger] key[i],
        s.subrange(p + key.len(), p + key.len() + value.len()) == value,
    ensures
        s == s.take(p) + key + Seq::<u8>::empty() + value + s.skip(p + key.len() + value.len()),
{
    let w = s.subrange(p + key.len(), p + key.len() + value.len());
    assert forall|i: int| 0 <= i < value.len() implies s[p + key.len() + i] == #[trigger] value[i] by {
        assert(w[i] == value[i]);
    }
    assert(s =~= s.take(p) + key + Seq::<u8>::empty() + value + s.skip(
        p + key.len() + value.len(),
    ));
}

/// A string around a key and its value in quotes.
proof fn lemma_cut_quoted(s: Seq<u8>, p: int, key: Seq<u8>, value: Seq<u8>)
    requires
        0 <= p,
        p + key.len() + value.len() + 2 <= s.len(),
        forall|i: int| 0 <= i < key.len() ==> s[p + i] == #[trigger] key[i],
        s[p + key.len()] == 34,
        s.subrange(p + key.len() + 1, p + key.len() + 1 + value.len()) == value,
        s[p + key.len() + 1 + value.len()] == 34,
    ensures
        s == s.take(p) + key + Seq::<u8>::empty() + seq![34u8] + value + seq![34u8] + s.skip(
            p + key.len() + value.len() + 2,
        ),
{
    let w = s.subrange(p + key.len() + 1, p + key.len() + 1 + value.len());
    assert forall|i: int| 0 <= i < value.len() implies s[p + key.len() + 1 + i]
        == #[trigger] value[i] by {
        assert(w[i] == value[i]);
    }
    assert(s =~= s.take(p) + key + Seq::<u8>::empty() + seq![34u8] + value + seq![34u8] + s.skip(
        p + key.len() + value.len() + 2,
    ));
}

/// A value in quotes behind the first occurrence of its key.
proof fn lemma_text_at(s: Seq<u8>, p: int, key: Seq<u8>, value: Seq<u8>, t: Seq<u8>)
    requires
        0 <= p,
        p + key.len() + value.len() + 2 <= s.len(),
        forall|i: int| 0 <= i < key.len() ==> s[p + i] == #[trigger] key[i],
        s[p + key.len()] == 34,
        s.subrange(p + key.len() + 1, p + key.len() + 1 + value.len()) == value,
        s[p + key.len() + 1 + value.len()] == 34,
        first_behind(s, s.take(p), key),
        forall|i: int| 0 <= i < value.len() ==> #[trigger] value[i] != 34,
    ensures
        sidecar::str_token(s, key, t) <==> t == value,
{
    lemma_cut_quoted(s, p, key, value);
    law_text_reads_back(
        s.take(p),
        key,
        Seq::empty(),
        value,
        s.skip(p + key.len() + value.len() + 2),
        t,
    );
}

/// The id of a request.
proof fn lemma_request_id(
    n: Seq<u8>,
    side: Seq<u8>,
    qty: Seq<u8>,
    px: Seq<u8>,
    s: Seq<u8>,
    id: i64,
)
    requires
        s == request_bytes(n, side, qty, px),
        sidecar::all_digits(n),
        request_parts(side, qty, px),
        id >= 0 && n == in_digits(id as nat),
    ensures
        sidecar::int_field(s, seq![34u8, 105, 100, 34, 58]) == Some(id),
{
    let a = 6int + n.len();
    let b = a + 9 + side.len();
    let c = b + 8 + qty.len();
    let d = c + 13 + px.len();
    lemma_request_pieces(n, side, qty, px, s);
    lemma_id_key(n, side, qty, px, s);
    let key = seq![34u8, 105, 100, 34, 58];
    assert forall|i: int| 0 <= i < key.len() implies s[1 + i] == #[trigger] key[i] by {
        assert(s.subrange(0, 6)[1 + i] == s[1 + i]);
    }
    lemma_cut(s, 1, key, n);
    assert(s[a] == s.subrange(a, a + 9)[0]);
    law_integer_reads_back(s.take(1), key, Seq::empty(), id, s.skip(a));
}

/// The side of a request.
proof fn lemma_request_side(
    n: Seq<u8>,
    side: Seq<u8>,
    qty: Seq<u8>,
    px: Seq<u8>,
    s: Seq<u8>,
    t: Seq<u8>,
)
    requires
        s == request_bytes(n, side, qty, px),
        sidecar::all_digits(n),
        request_parts(side, qty, px),
    ensures
        sidecar::str_token(s, seq![34u8, 115, 105, 100, 101, 34, 58], t) <==> t == side,
{
    let a = 6int + n.len();
    let b = a + 9 + side.len();
    let c = b + 8 + qty.len();
    let d = c + 13 + px.len();
    lemma_request_pieces(n, side, qty, px, s);
    lemma_side_key(n, side, qty, px, s);
    let key = seq![34u8, 115, 105, 100, 101, 34, 58];
    assert forall|i: int| 0 <= i < key.len() implies s[a + 1 + i] == #[trigger] key[i] by {
        assert(s.subrange(a, a + 9)[1 + i] == s[a + 1 + i]);
    }
    assert(s[a + 8] == s.subrange(a, a + 9)[8]);
    assert(s[b] == s.subrange(b, b + 8)[0]);
    lemma_text_at(s, a + 1, key, side, t);
}

/// The quantity of a request.
proof fn lemma_request_qty(
    n: Seq<u8>,
    side: Seq<u8>,
    qty: Seq<u8>,
    px: Seq<u8>,
    s: Seq<u8>,
)
    requires
        s == request_bytes(n, side, qty, px),
        sidecar::all_digits(n),
        request_parts(side, qty, px),
    ensures
        sidecar::number_token(s, seq![34u8, 113, 116, 121, 34, 58]) == Some(qty),
{
    let a = 6int + n.len();
    let b = a + 9 + side.len();
    let c = b + 8 + qty.len();
    let d = c + 13 + px.len();
    lemma_request_pieces(n, side, qty, px, s);
    lemma_qty_key(n, side, qty, px, s);
    let key = seq![34u8, 113, 116, 121, 34, 58];
    assert forall|i: int| 0 <= i < key.len() implies s[b + 2 + i] == #[trigger] key[i] by {
        assert(s.subrange(b, b + 8)[2 + i] == s[b + 2 + i]);
    }
    lemma_cut(s, b + 2, key, qty);
    assert(s[c] == s.subrange(c, c + 13)[0]);
    law_number_reads_back(s.take(b + 2), key, Seq::empty(), qty, s.skip(c));
}

/// The reference price of a request.
proof fn lemma_request_price(
    n: Seq<u8>,
    side: Seq<u8>,
    qty: Seq<u8>,
    px: Seq<u8>,
    s: Seq<u8>,
)
    requires
        s == request_bytes(n, side, qty, px),
        sidecar::all_digits(n),
        request_parts(side, qty, px),
    ensures
        sidecar::number_token(
            s,
            seq![34u8, 114, 101, 102, 95, 112, 114, 105, 99, 101, 34, 58],
        ) == Some(px),
{
    let a = 6int + n.len();
    let b = a + 9 + side.len();
    let c = b + 8 + qty.len();
    let d = c + 13 + px.len();
    lemma_request_pieces(n, side, qty, px, s);
    lemma_price_key(n, side, qty, px, s);
    let key = seq![34u8, 114, 101, 102, 95, 112, 114, 105, 99, 101, 34, 58];
    assert forall|i: int| 0 <= i < key.len() implies s[c + 1 + i] == #[trigger] key[i] by {
        assert(s.subrange(c, c + 13)[1 + i] == s[c + 1 + i]);
    }
    lemma_cut(s, c + 1, key, px);
    assert(s[d] == s.subrange(d, d + 2)[0]);
    law_number_reads_back(s.take(c + 1), key, Seq::empty(), px, s.skip(d));
}

/// A request says what was asked for: its id, its side, its quantity and its reference
/// price can be read back from it, each behind its key.
pub proof fn law_request_reads_back(
    id: u64,
    side: Seq<char>,
    qty: Seq<char>,
    ref_price: Seq<char>,
    t: Seq<u8>,
)
    requires
        request_parts(
            utf8::encode_utf8(side),
            utf8::encode_utf8(qty),
            utf8::encode_utf8(ref_price),
        ),
    ensures
        ({
            let s = utf8::encode_utf8(sidecar::request_text(id, side, qty, ref_price));
            &&& id <= i64::MAX ==> sidecar::int_field(s, seq![34u8, 105, 100, 34, 58]) == Some(
                id as i64,
            )
            &&& sidecar::str_token(s, seq![34u8, 115, 105, 100, 101, 34, 58], t) <==> t
                == utf8::encode_utf8(side)
            &&& sidecar::number_token(s, seq![34u8, 113, 116, 121, 34, 58]) == Some(
                utf8::encode_utf8(qty),
            )
            &&& sidecar::number_token(
                s,
                seq![34u8, 114, 101, 102, 95, 112, 114, 105, 99, 101, 34, 58],
            ) == Some(utf8::encode_utf8(ref_price))
        }),
{
    let n = in_digits(id as nat);
    let u = utf8::encode_utf8(side);
    let q = utf8::encode_utf8(qty);
    let px = utf8::encode_utf8(ref_price);
    let s = utf8::encode_utf8(sidecar::request_text(id, side, qty, ref_price));
    lemma_in_digits(id as nat);
    lemma_request_bytes(id, side, qty, ref_price);
    if id <= i64::MAX {
        lemma_request_id(n, u, q, px, s, id as i64);
    }
    lemma_request_side(n, u, q, px, s, t);
    lemma_request_qty(n, u, q, px, s);
    lemma_request_price(n, u, q, px, s);
}

/// A request is one line: it ends at its first newline.
pub proof fn law_request_is_one_line(
    id: u64,
    side: Seq<char>,
    qty: Seq<char>,
    ref_price: Seq<char>,
    j: int,
)
    requires
        request_parts(
            utf8::encode_utf8(side),
            utf8::encode_utf8(qty),
            utf8::encode_utf8(ref_price),
        ),
    ensures
        ({
            let s = utf8::encode_utf8(sidecar::request_text(id, side, qty, ref_price));
            0 <= j < s.len() ==> (s[j] == 10 <==> j == s.len() - 1)
        }),
{
    let n = in_digits(id as nat);
    let u = utf8::encode_utf8(side);
    let q = utf8::encode_utf8(qty);
    let px = utf8::encode_utf8(ref_price);
    let s = utf8::encode_utf8(sidecar::request_text(id, side, qty, ref_price));
    lemma_in_digits(id as nat);
    lemma_request_bytes(id, side, qty, ref_price);
    lemma_request_pieces(n, u, q, px, s);
    if 0 <= j < s.len() {
        lemma_request_byte(n, u, q, px, s, j);
        let d = s.len() - 2;
        assert(s[d + 1] == s.subrange(d, d + 2)[1]);
    }
}

} // verus!
