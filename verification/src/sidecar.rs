//! The line protocol of the hedging sidecar: one JSON object per line, read
//! field by field.
use crate::sbe::wire;
use crate::sbe::wire::i64_bits;
use crate::search;
use crate::search::has;
use crate::text;
use crate::text::push_decimal;
use vstd::prelude::*;
use vstd::slice::{slice_subrange, slice_to_vec};
use vstd::string::StringExecFns;

verus! {

/// Blanks that may stand between a key and its value.
pub open spec fn is_blank(c: u8) -> bool {
    c == 0x20 || c == 0x09
}

pub open spec fn is_digit(c: u8) -> bool {
    0x30 <= c <= 0x39
}

/// Bytes of a JSON number.
pub open spec fn is_number_byte(c: u8) -> bool {
    is_digit(c) || c == 0x2d || c == 0x2b || c == 0x2e || c == 0x65 || c == 0x45
}

/// Bytes of a JSON integer.
pub open spec fn is_int_byte(c: u8) -> bool {
    is_digit(c) || c == 0x2d
}

/// The end of the longest run of bytes of a class that starts at `p`.
pub open spec fn run_end(s: Seq<u8>, p: int, class: spec_fn(u8) -> bool) -> int
    decreases s.len() - p,
{
    if 0 <= p < s.len() && class(s[p]) {
        run_end(s, p + 1, class)
    } else {
        p
    }
}

/// Offset of the value behind the first `key`, past the blanks.
pub open spec fn value_offset(s: Seq<u8>, key: Seq<u8>) -> Option<int> {
    if search::occurs(s, key) {
        let i = choose|i: int| search::occurs_first_at(s, key, i);
        Some(run_end(s, i + key.len(), |c: u8| is_blank(c)))
    } else {
        None
    }
}

/// Offset of the value behind the first `key`, past the blanks.
fn find_value(s: &[u8], key: &[u8]) -> (res: Option<usize>)
    ensures
        match res {
            Some(p) => value_offset(s@, key@) == Some(p as int) && p <= s@.len(),
            None => value_offset(s@, key@) is None,
        },
{
    let i: usize = memchr::memmem::find(s, key)?;
    let _len: usize = s.len();
    let class: Ghost<spec_fn(u8) -> bool> = Ghost(|c: u8| is_blank(c));
    let mut p: usize = i + key.len();
    let ghost start = p as int;
    proof {
        let first = choose|i: int| search::occurs_first_at(s@, key@, i);
        search::lemma_first_is_unique(s@, key@, i as int, first);
    }
    while p < s.len() && (s[p] == 0x20 || s[p] == 0x09)
        invariant
            p <= s@.len(),
            class@ == (|c: u8| is_blank(c)),
            run_end(s@, start, class@) == run_end(s@, p as int, class@),
        decreases s@.len() - p,
    {
        p = p + 1;
    }
    Some(p)
}

/// The text of the number behind the first `key`.
pub open spec fn number_token(s: Seq<u8>, key: Seq<u8>) -> Option<Seq<u8>> {
    match value_offset(s, key) {
        None => None,
        Some(p) => {
            let end = run_end(s, p, |c: u8| is_number_byte(c));
            if end == p {
                None
            } else {
                Some(s.subrange(p, end))
            }
        },
    }
}

/// The text of an unquoted JSON number field; whether it is a number is for
/// the caller to find out.
pub fn number_field<'a>(s: &'a [u8], key: &[u8]) -> (res: Option<&'a [u8]>)
    ensures
        match res {
            Some(t) => number_token(s@, key@) == Some(t@),
            None => number_token(s@, key@) is None,
        },
{
    let start: usize = find_value(s, key)?;
    let class: Ghost<spec_fn(u8) -> bool> = Ghost(|c: u8| is_number_byte(c));
    let mut p: usize = start;
    while p < s.len() && (s[p] == 0x2d || s[p] == 0x2b || s[p] == 0x2e || s[p] == 0x65 || s[p]
        == 0x45 || (0x30 <= s[p] && s[p] <= 0x39))
        invariant
            start <= p <= s@.len(),
            class@ == (|c: u8| is_number_byte(c)),
            run_end(s@, start as int, class@) == run_end(s@, p as int, class@),
        decreases s@.len() - p,
    {
        p = p + 1;
    }
    if p == start {
        return None;
    }
    Some(slice_subrange(s, start, p))
}

/// The value of a JSON string field: the bytes between the quote that starts
/// the value behind the first `key` and the next quote.
pub open spec fn str_token(s: Seq<u8>, key: Seq<u8>, t: Seq<u8>) -> bool {
    &&& value_offset(s, key) matches Some(p)
    &&& p < s.len() && s[p] == 0x22
    &&& p + 1 + t.len() < s.len()
    &&& t == s.subrange(p + 1, p + 1 + t.len())
    &&& s[p + 1 + t.len()] == 0x22
    &&& forall|j: int| 0 <= j < t.len() ==> t[j] != 0x22
}

/// The value of a JSON string field. `key` includes its quotes and the colon;
/// blanks may follow it. Nothing where the value is not a quoted string.
pub fn extract_str_field<'a>(s: &'a [u8], key: &[u8]) -> (res: Option<&'a [u8]>)
    ensures
        match res {
            Some(t) => str_token(s@, key@, t@),
            None => forall|t: Seq<u8>| !str_token(s@, key@, t),
        },
{
    let p: usize = find_value(s, key)?;
    if p >= s.len() || s[p] != 0x22 {
        return None;
    }
    let rest = slice_subrange(s, p + 1, s.len());
    match memchr::memchr(0x22, rest) {
        Some(end) => {
            let t = slice_subrange(rest, 0, end);
            assert(t@ =~= s@.subrange(p + 1, p + 1 + t@.len()));
            Some(t)
        },
        None => {
            assert forall|t: Seq<u8>| !str_token(s@, key@, t) by {
                if str_token(s@, key@, t) {
                    assert(rest@[t.len() as int] == s@[p + 1 + t.len()]);
                }
            }
            None
        },
    }
}

/// The number that a string of decimal digits spells.
pub open spec fn digits_value(s: Seq<u8>) -> int
    decreases s.len(),
{
    if s.len() == 0 {
        0
    } else {
        digits_value(s.drop_last()) * 10 + (s.last() - 0x30)
    }
}

/// A text without its minus sign.
pub open spec fn unsigned_part(t: Seq<u8>) -> Seq<u8> {
    if t.len() > 0 && t[0] == 0x2d {
        t.skip(1)
    } else {
        t
    }
}

pub open spec fn all_digits(s: Seq<u8>) -> bool {
    forall|i: int| 0 <= i < s.len() ==> is_digit(#[trigger] s[i])
}

/// The number that a text spells as an `i64`: an optional minus sign and at
/// least one digit, within range.
pub open spec fn int_value(t: Seq<u8>) -> Option<i64> {
    let digits = unsigned_part(t);
    let v = if t.len() > 0 && t[0] == 0x2d {
        -digits_value(digits)
    } else {
        digits_value(digits)
    };
    if digits.len() > 0 && all_digits(digits) && i64::MIN <= v <= i64::MAX {
        Some(v as i64)
    } else {
        None
    }
}

proof fn lemma_digits_value_grows(s: Seq<u8>, k: int)
    requires
        0 <= k <= s.len(),
        all_digits(s),
    ensures
        0 <= digits_value(s.take(k)) <= digits_value(s),
    decreases s.len() - k, s.len(),
{
    if s.len() > 0 {
        if k == s.len() {
            assert(s.take(k) =~= s);
            assert(s.drop_last().take(k - 1) =~= s.drop_last());
            lemma_digits_value_grows(s.drop_last(), k - 1);
        } else {
            lemma_digits_value_grows(s.drop_last(), k);
            assert(s.drop_last().take(k) =~= s.take(k));
        }
    } else {
        assert(s.take(k) =~= s);
    }
}

/// Parses a text of digits and minus signs as an `i64`.
fn parse_int(t: &[u8]) -> (res: Option<i64>)
    ensures
        res == int_value(t@),
{
    let negative = t.len() > 0 && t[0] == 0x2d;
    let digits = if negative {
        slice_subrange(t, 1, t.len())
    } else {
        t
    };
    assert(negative ==> digits@ =~= t@.skip(1));
    if digits.len() == 0 {
        return None;
    }
    let mut k: usize = 0;
    while k < digits.len()
        invariant
            k <= digits@.len(),
            forall|i: int| 0 <= i < k ==> is_digit(#[trigger] digits@[i]),
            negative == (t@.len() > 0 && t@[0] == 0x2d),
            digits@ == unsigned_part(t@),
        decreases digits@.len() - k,
    {
        if digits[k] < 0x30 || digits[k] > 0x39 {
            assert(!is_digit(digits@[k as int]));
            return None;
        }
        k = k + 1;
    }
    let limit: u64 = if negative {
        0x8000_0000_0000_0000
    } else {
        0x7fff_ffff_ffff_ffff
    };
    let mut v: u64 = 0;
    k = 0;
    assert(digits@.take(0) =~= Seq::<u8>::empty());
    while k < digits.len()
        invariant
            k <= digits@.len(),
            digits@.len() > 0,
            all_digits(digits@),
            negative == (t@.len() > 0 && t@[0] == 0x2d),
            digits@ == unsigned_part(t@),
            limit == if negative {
                0x8000_0000_0000_0000u64
            } else {
                0x7fff_ffff_ffff_ffffu64
            },
            v <= limit,
            v == digits_value(digits@.take(k as int)),
        decreases digits@.len() - k,
    {
        let next: u128 = v as u128 * 10 + (digits[k] - 0x30) as u128;
        k = k + 1;
        proof {
            assert(digits@.take(k as int).drop_last() =~= digits@.take(k - 1));
            lemma_digits_value_grows(digits@, k as int);
        }
        if next > limit as u128 {
            return None;
        }
        v = next as u64;
    }
    assert(digits@.take(k as int) =~= digits@);
    if !negative {
        Some(v as i64)
    } else if v == 0x8000_0000_0000_0000 {
        Some(i64::MIN)
    } else {
        Some(-(v as i64))
    }
}

/// The integer behind the first `key`.
pub open spec fn int_field(s: Seq<u8>, key: Seq<u8>) -> Option<i64> {
    match value_offset(s, key) {
        None => None,
        Some(p) => int_value(s.subrange(p, run_end(s, p, |c: u8| is_int_byte(c)))),
    }
}

/// The value of a JSON integer field.
pub fn extract_int_field(s: &[u8], key: &[u8]) -> (res: Option<i64>)
    ensures
        res == int_field(s@, key@),
{
    let start: usize = find_value(s, key)?;
    let class: Ghost<spec_fn(u8) -> bool> = Ghost(|c: u8| is_int_byte(c));
    let mut p: usize = start;
    while p < s.len() && (s[p] == 0x2d || (0x30 <= s[p] && s[p] <= 0x39))
        invariant
            start <= p <= s@.len(),
            class@ == (|c: u8| is_int_byte(c)),
            run_end(s@, start as int, class@) == run_end(s@, p as int, class@),
        decreases s@.len() - p,
    {
        p = p + 1;
    }
    parse_int(slice_subrange(s, start, p))
}

/// A best bid and ask, as the texts of two numbers.
#[derive(Debug, Clone)]
pub struct BboTexts {
    pub bid: Vec<u8>,
    pub ask: Vec<u8>,
}

/// The best bid and ask of a line, if it holds both.
pub open spec fn bbo_texts(line: Seq<u8>) -> Option<(Seq<u8>, Seq<u8>)> {
    match (
        number_token(line, search::bytes_of("\"bid\":")),
        number_token(line, search::bytes_of("\"ask\":")),
    ) {
        (Some(bid), Some(ask)) => Some((bid, ask)),
        _ => None,
    }
}

fn bbo_fields(line: &[u8]) -> (res: Option<BboTexts>)
    ensures
        match res {
            Some(t) => bbo_texts(line@) == Some((t.bid@, t.ask@)),
            None => bbo_texts(line@) is None,
        },
{
    let bid = number_field(line, "\"bid\":".as_bytes())?;
    let ask = number_field(line, "\"ask\":".as_bytes())?;
    Some(BboTexts { bid: slice_to_vec(bid), ask: slice_to_vec(ask) })
}

/// What a line means before the sidecar is ready.
#[derive(Debug, Clone)]
pub enum StartupLine {
    /// The sidecar is ready.
    Ready,
    /// The sidecar says that it cannot serve.
    NotReady,
    /// A quote.
    Bbo(BboTexts),
    /// Nothing of interest.
    Other,
}

/// `res` is what a line means before the sidecar is ready.
pub open spec fn startup_told(line: Seq<u8>, res: StartupLine) -> bool {
    match res {
        StartupLine::Ready => search::occurs(line, search::bytes_of("\"ready\"")) && search::occurs(
            line,
            search::bytes_of("true"),
        ),
        StartupLine::NotReady => search::occurs(line, search::bytes_of("\"ready\"")) && !search::occurs(
            line,
            search::bytes_of("true"),
        ),
        StartupLine::Bbo(t) => {
            &&& !search::occurs(line, search::bytes_of("\"ready\""))
            &&& search::occurs(line, search::bytes_of("\"bbo\""))
            &&& bbo_texts(line) == Some((t.bid@, t.ask@))
        },
        StartupLine::Other => {
            &&& !search::occurs(line, search::bytes_of("\"ready\""))
            &&& !search::occurs(line, search::bytes_of("\"bbo\"")) || bbo_texts(line) is None
        },
    }
}

/// Reads a line that came before the sidecar was ready.
pub fn startup_line(line: &[u8]) -> (res: StartupLine)
    ensures
        startup_told(line@, res),
{
    if has(line, "\"ready\"") {
        return if has(line, "true") {
            StartupLine::Ready
        } else {
            StartupLine::NotReady
        };
    }
    if has(line, "\"bbo\"") {
        if let Some(t) = bbo_fields(line) {
            return StartupLine::Bbo(t);
        }
    }
    StartupLine::Other
}

/// The answer to a hedge request; the numbers as texts, where they are there.
#[derive(Debug, Clone)]
pub struct HedgeReply {
    pub id: u64,
    pub ok: bool,
    pub qty: Option<Vec<u8>>,
    pub px: Option<Vec<u8>>,
    pub err: Option<Vec<u8>>,
}

impl HedgeReply {
    /// This is what the line says.
    pub open spec fn told_by(self, line: Seq<u8>) -> bool {
        &&& int_field(line, search::bytes_of("\"id\":")) matches Some(id)
        &&& self.id == wire::twos64(id)
        &&& self.ok == (search::occurs(line, search::bytes_of("\"ok\":true")) || search::occurs(
            line,
            search::bytes_of("\"ok\": true"),
        ))
        &&& match self.qty {
            Some(t) => number_token(line, search::bytes_of("\"qty\":")) == Some(t@),
            None => number_token(line, search::bytes_of("\"qty\":")) is None,
        }
        &&& match self.px {
            Some(t) => number_token(line, search::bytes_of("\"px\":")) == Some(t@),
            None => number_token(line, search::bytes_of("\"px\":")) is None,
        }
        &&& match self.err {
            Some(t) => str_token(line, search::bytes_of("\"err\":"), t@),
            None => forall|t: Seq<u8>| !str_token(line, search::bytes_of("\"err\":"), t),
        }
    }
}

/// What a line means once the sidecar is ready.
#[derive(Debug, Clone)]
pub enum RunningLine {
    /// A quote, if both its sides are there.
    Bbo(Option<BboTexts>),
    /// The answer to a hedge request.
    Reply(HedgeReply),
    /// Neither a quote nor the answer to a request that can be told.
    NoId,
}

/// Whether a line is a quote.
pub open spec fn is_bbo_line(line: Seq<u8>) -> bool {
    search::occurs(line, search::bytes_of("\"bbo\":true")) || search::occurs(line, search::bytes_of("\"bbo\": true"))
}

/// Copies a part of a line.
fn owned(t: Option<&[u8]>) -> (res: Option<Vec<u8>>)
    ensures
        match t {
            Some(s) => res matches Some(v) && v@ == s@,
            None => res is None,
        },
{
    match t {
        Some(s) => Some(slice_to_vec(s)),
        None => None,
    }
}

/// `res` is what a line means once the sidecar is ready.
pub open spec fn running_told(line: Seq<u8>, res: RunningLine) -> bool {
    match res {
        RunningLine::Bbo(t) => is_bbo_line(line) && match t {
            Some(t) => bbo_texts(line) == Some((t.bid@, t.ask@)),
            None => bbo_texts(line) is None,
        },
        RunningLine::Reply(r) => !is_bbo_line(line) && r.told_by(line),
        RunningLine::NoId => !is_bbo_line(line) && int_field(
            line,
            search::bytes_of("\"id\":"),
        ) is None,
    }
}

/// Reads a line that came once the sidecar was ready.
pub fn running_line(line: &[u8]) -> (res: RunningLine)
    ensures
        running_told(line@, res),
{
    if has(line, "\"bbo\":true") || has(line, "\"bbo\": true") {
        return RunningLine::Bbo(bbo_fields(line));
    }
    match extract_int_field(line, "\"id\":".as_bytes()) {
        None => RunningLine::NoId,
        Some(id) => RunningLine::Reply(
            HedgeReply {
                id: i64_bits(id),
                ok: has(line, "\"ok\":true") || has(line, "\"ok\": true"),
                qty: owned(number_field(line, "\"qty\":".as_bytes())),
                px: owned(number_field(line, "\"px\":".as_bytes())),
                err: owned(extract_str_field(line, "\"err\":".as_bytes())),
            },
        ),
    }
}

/// The text of a request line.
pub open spec fn request_text(
    id: u64,
    side: Seq<char>,
    qty: Seq<char>,
    ref_price: Seq<char>,
) -> Seq<char> {
    "{\"id\":"@ + text::decimal(id as nat) + ",\"side\":\""@ + side + "\",\"qty\":"@ + qty
        + ",\"ref_price\":"@ + ref_price + "}\n"@
}

/// A request line; `qty` and `ref_price` are the texts of two numbers.
pub fn hedge_request(id: u64, side: &str, qty: &str, ref_price: &str) -> (line: String)
    ensures
        line@ == request_text(id, side@, qty@, ref_price@),
{
    let mut line = String::new();
    line.append("{\"id\":");
    assert(line@ =~= "{\"id\":"@);
    push_decimal(&mut line, id);
    line.append(",\"side\":\"");
    line.append(side);
    line.append("\",\"qty\":");
    line.append(qty);
    line.append(",\"ref_price\":");
    line.append(ref_price);
    line.append("}\n");
    line
}

} // verus!
