//! The perpetual-futures feed: one JSON document per message.
use crate::search;
use crate::search::ends_with;
use crate::text;
use vstd::prelude::*;
use vstd::utf8;

verus! {

/// The string that a JSON pointer leads to in a document; nothing where the
/// document is not JSON or the pointer leads to no string.
pub uninterp spec fn json_string_at(doc: Seq<char>, pointer: Seq<char>) -> Option<Seq<char>>;

/// `serde_json::from_str` parses the document once, `Value::pointer` follows
/// each pointer and `Value::as_str` takes the string there; each of the three
/// results depends on the document and its pointer alone.
#[verifier::external_body]
fn json_strings_at(doc: &str, p: &str, q: &str, r: &str) -> (res: (
    Option<String>,
    Option<String>,
    Option<String>,
))
    ensures
        text::view_of(res.0) == json_string_at(doc@, p@),
        text::view_of(res.1) == json_string_at(doc@, q@),
        text::view_of(res.2) == json_string_at(doc@, r@),
{
    match serde_json::from_str::<serde_json::Value>(doc) {
        Ok(v) => (
            v.pointer(p).and_then(|x| x.as_str()).map(|s| s.to_string()),
            v.pointer(q).and_then(|x| x.as_str()).map(|s| s.to_string()),
            v.pointer(r).and_then(|x| x.as_str()).map(|s| s.to_string()),
        ),
        Err(_) => (None, None, None),
    }
}

/// The best bid and ask of a message: those of its data, if its stream is a
/// book ticker.
pub open spec fn quote_texts(
    stream: Option<Seq<char>>,
    bid: Option<Seq<char>>,
    ask: Option<Seq<char>>,
) -> Option<(Seq<char>, Seq<char>)> {
    match (stream, bid, ask) {
        (Some(stream), Some(bid), Some(ask)) => if search::is_suffix(
            utf8::encode_utf8("@bookTicker"@),
            utf8::encode_utf8(stream),
        ) {
            Some((bid, ask))
        } else {
            None
        },
        _ => None,
    }
}

/// What a message says, from the strings in it: the stream's name, and the best
/// bid and ask as texts.
pub fn perp_quote(stream: Option<String>, bid: Option<String>, ask: Option<String>) -> (res: Option<
    (String, String),
>)
    ensures
        match res {
            Some((b, a)) => quote_texts(text::view_of(stream), text::view_of(bid), text::view_of(ask)) == Some(
                (b@, a@),
            ),
            None => quote_texts(text::view_of(stream), text::view_of(bid), text::view_of(ask)) is None,
        },
{
    match (stream, bid, ask) {
        (Some(stream), Some(bid), Some(ask)) => {
            if ends_with(stream.as_str().as_bytes(), "@bookTicker".as_bytes()) {
                Some((bid, ask))
            } else {
                None
            }
        },
        _ => None,
    }
}

/// The best bid and ask, as texts, of a message of a combined stream:
/// `{"stream": .., "data": {"b": .., "a": ..}}`.
pub fn parse_perp_message(doc: &str) -> (res: Option<(String, String)>)
    ensures
        ({
            let quote = quote_texts(
                json_string_at(doc@, "/stream"@),
                json_string_at(doc@, "/data/b"@),
                json_string_at(doc@, "/data/a"@),
            );
            match res {
                Some((b, a)) => quote == Some((b@, a@)),
                None => quote is None,
            }
        }),
{
    let (stream, bid, ask) = json_strings_at(doc, "/stream", "/data/b", "/data/a");
    perp_quote(stream, bid, ask)
}

/// A message tells of a quote exactly where all three strings are there and its stream
/// is that of a book ticker; the bid comes first. The name in front of the `@` makes no
/// difference.
pub proof fn law_quotes_of_book_tickers(
    name: Seq<char>,
    bid: Option<Seq<char>>,
    ask: Option<Seq<char>>,
)
    requires
        utf8::is_ascii_chars(name),
    ensures
        ({
            let stream = name + seq!['@', 'b', 'o', 'o', 'k', 'T', 'i', 'c', 'k', 'e', 'r'];
            quote_texts(Some(stream), bid, ask) == match (bid, ask) {
                (Some(b), Some(a)) => Some((b, a)),
                _ => None,
            }
        }),
        quote_texts(None, bid, ask) is None,
{
    let tail = seq!['@', 'b', 'o', 'o', 'k', 'T', 'i', 'c', 'k', 'e', 'r'];
    let stream = name + tail;
    reveal_strlit("@bookTicker");
    assert("@bookTicker"@ =~= tail);
    assert(utf8::is_ascii_chars(tail));
    assert(utf8::is_ascii_chars(stream));
    utf8::is_ascii_chars_encode_utf8(tail);
    utf8::is_ascii_chars_encode_utf8(stream);
    let (t, s) = (utf8::encode_utf8(tail), utf8::encode_utf8(stream));
    assert forall|i: int| 0 <= i < t.len() implies s[name.len() + i] == t[i] by {
        assert(stream[name.len() + i] == tail[i]);
        assert(s[name.len() + i] == stream[name.len() + i] as u8);
        assert(t[i] == tail[i] as u8);
    }
    assert(s.skip(name.len() as int) =~= t);
}

/// A message of any other stream tells of no quote.
pub proof fn law_other_streams_have_no_quote(
    stream: Seq<char>,
    bid: Option<Seq<char>>,
    ask: Option<Seq<char>>,
)
    requires
        utf8::is_ascii_chars(stream),
        stream.len() < 11 || stream.skip(stream.len() - 11) != seq![
            '@',
            'b',
            'o',
            'o',
            'k',
            'T',
            'i',
            'c',
            'k',
            'e',
            'r',
        ],
    ensures
        quote_texts(Some(stream), bid, ask) is None,
{
    let tail = seq!['@', 'b', 'o', 'o', 'k', 'T', 'i', 'c', 'k', 'e', 'r'];
    reveal_strlit("@bookTicker");
    assert("@bookTicker"@ =~= tail);
    assert(utf8::is_ascii_chars(tail));
    utf8::is_ascii_chars_encode_utf8(tail);
    utf8::is_ascii_chars_encode_utf8(stream);
    let (t, s) = (utf8::encode_utf8(tail), utf8::encode_utf8(stream));
    if search::is_suffix(t, s) {
        let name = stream.take(stream.len() - 11);
        assert forall|i: int| 0 <= i < 11 implies stream[name.len() + i] == tail[i] by {
            assert(s.skip(s.len() - 11)[i] == t[i]);
            assert(s[name.len() + i] == stream[name.len() + i] as u8);
            assert(t[i] == tail[i] as u8);
        }
        assert(stream.skip(stream.len() - 11) =~= tail);
    }
}

} // verus!
