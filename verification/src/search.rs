//! Searching byte strings.
use vstd::prelude::*;
use vstd::slice::slice_subrange;
use vstd::utf8;

verus! {

/// `needle` stands in `s` at offset `i`.
pub open spec fn occurs_at(s: Seq<u8>, needle: Seq<u8>, i: int) -> bool {
    &&& 0 <= i
    &&& i + needle.len() <= s.len()
    &&& s.subrange(i, i + needle.len()) == needle
}

/// `i` is the first offset at which `needle` stands in `s`.
pub open spec fn occurs_first_at(s: Seq<u8>, needle: Seq<u8>, i: int) -> bool {
    occurs_at(s, needle, i) && forall|j: int| 0 <= j < i ==> !occurs_at(s, needle, j)
}

/// `needle` stands somewhere in `s`.
pub open spec fn occurs(s: Seq<u8>, needle: Seq<u8>) -> bool {
    exists|i: int| occurs_at(s, needle, i)
}

/// `memchr::memmem::find` returns the offset of the first occurrence of the
/// needle, or nothing where it does not occur.
pub assume_specification[ memchr::memmem::find ](haystack: &[u8], needle: &[u8]) -> (res: Option<
    usize,
>)
    ensures
        match res {
            Some(i) => occurs_first_at(haystack@, needle@, i as int),
            None => forall|j: int| !occurs_at(haystack@, needle@, j),
        },
;

/// `memchr::memchr` returns the offset of the first byte that equals `needle`,
/// or nothing where there is none.
pub assume_specification[ memchr::memchr ](needle: u8, haystack: &[u8]) -> (res: Option<usize>)
    ensures
        match res {
            Some(i) => {
                &&& i < haystack@.len()
                &&& haystack@[i as int] == needle
                &&& forall|j: int| 0 <= j < i ==> haystack@[j] != needle
            },
            None => forall|j: int| 0 <= j < haystack@.len() ==> haystack@[j] != needle,
        },
;

/// The bytes of a text.
pub open spec fn bytes_of(t: &str) -> Seq<u8> {
    utf8::encode_utf8(t@)
}

/// Whether `text` stands somewhere in `line`.
pub(crate) fn has(line: &[u8], text: &str) -> (b: bool)
    ensures
        b == occurs(line@, bytes_of(text)),
{
    match memchr::memmem::find(line, text.as_bytes()) {
        Some(_) => true,
        None => false,
    }
}

/// A needle has one first offset.
pub proof fn lemma_first_is_unique(s: Seq<u8>, needle: Seq<u8>, i: int, j: int)
    requires
        occurs_first_at(s, needle, i),
        occurs_first_at(s, needle, j),
    ensures
        i == j,
{
}

/// Whether two byte strings are equal.
pub(crate) fn bytes_eq(a: &[u8], b: &[u8]) -> (eq: bool)
    ensures
        eq == (a@ == b@),
{
    if a.len() != b.len() {
        return false;
    }
    let mut i: usize = 0;
    while i < a.len()
        invariant
            i <= a@.len() == b@.len(),
            forall|k: int| 0 <= k < i ==> a@[k] == b@[k],
        decreases a@.len() - i,
    {
        if a[i] != b[i] {
            return false;
        }
        i = i + 1;
    }
    assert(a@ =~= b@);
    true
}

/// `suffix` ends `s`.
pub open spec fn is_suffix(suffix: Seq<u8>, s: Seq<u8>) -> bool {
    suffix.len() <= s.len() && s.skip(s.len() - suffix.len()) == suffix
}

/// Whether `suffix` ends `s`.
pub fn ends_with(s: &[u8], suffix: &[u8]) -> (b: bool)
    ensures
        b == is_suffix(suffix@, s@),
{
    if suffix.len() > s.len() {
        return false;
    }
    let tail = slice_subrange(s, s.len() - suffix.len(), s.len());
    assert(tail@ =~= s@.skip(s@.len() - suffix@.len()));
    bytes_eq(tail, suffix)
}

} // verus!
