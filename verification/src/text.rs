//! Byte-string helpers shared by the rest of the crate.
//!
//! Paths, header values and file names are handled as raw bytes, so that
//! names that are not valid UTF-8 pass through unchanged. Literals are
//! written as ASCII `&str` and viewed through [`ascii`].

use vstd::prelude::*;
use vstd::string::is_ascii_spec_bytes;

verus! {

/// The bytes of an ASCII text, one byte per character.
pub open spec fn ascii(s: &str) -> Seq<u8> {
    Seq::new(s@.len(), |i: int| s@[i] as u8)
}

/// Borrows the bytes of an ASCII text.
pub(crate) fn bytes_of(s: &str) -> (r: &[u8])
    requires
        s.is_ascii(),
    ensures
        r@ == ascii(s),
{
    proof {
        is_ascii_spec_bytes(s);
    }
    s.as_bytes()
}

/// Copies a slice into a fresh vector.
pub fn to_vec(s: &[u8]) -> (r: Vec<u8>)
    ensures
        r@ == s@,
{
    let mut r: Vec<u8> = Vec::with_capacity(s.len());
    r.extend_from_slice(s);
    r
}

/// Whether two byte strings hold the same bytes.
pub fn same_bytes(a: &[u8], b: &[u8]) -> (r: bool)
    ensures
        r == (a@ == b@),
{
    if a.len() != b.len() {
        return false;
    }
    let mut i: usize = 0;
    while i < a.len()
        invariant
            a@.len() == b@.len(),
            i <= a@.len(),
            a@.take(i as int) == b@.take(i as int),
        decreases a@.len() - i,
    {
        if a[i] != b[i] {
            assert(a@[i as int] != b@[i as int]);
            return false;
        }
        assert(a@.take(i + 1) == a@.take(i as int).push(a@[i as int]));
        assert(b@.take(i + 1) == b@.take(i as int).push(b@[i as int]));
        i += 1;
    }
    assert(a@.take(i as int) == a@);
    assert(b@.take(i as int) == b@);
    true
}

/// Whether `s` begins with `prefix`.
pub fn starts_with(s: &[u8], prefix: &[u8]) -> (r: bool)
    ensures
        r == prefix@.is_prefix_of(s@),
{
    if prefix.len() > s.len() {
        return false;
    }
    same_bytes(&s[0..prefix.len()], prefix)
}

/// Whether `s` ends with `suffix`.
pub fn ends_with(s: &[u8], suffix: &[u8]) -> (r: bool)
    ensures
        r == suffix@.is_suffix_of(s@),
{
    if suffix.len() > s.len() {
        return false;
    }
    same_bytes(&s[s.len() - suffix.len()..s.len()], suffix)
}

/// `s` with every trailing repetition of `suffix` removed.
///
/// An empty `suffix` removes nothing.
pub open spec fn without_trailing(s: Seq<u8>, suffix: Seq<u8>) -> Seq<u8>
    decreases s.len(),
{
    if suffix.len() > 0 && suffix.is_suffix_of(s) {
        without_trailing(s.subrange(0, s.len() - suffix.len()), suffix)
    } else {
        s
    }
}

/// Removes every trailing repetition of `suffix` from `s`.
pub fn trim_end_matches<'a>(s: &'a [u8], suffix: &[u8]) -> (r: &'a [u8])
    ensures
        r@ == without_trailing(s@, suffix@),
{
    if suffix.len() == 0 {
        return s;
    }
    let mut end: usize = s.len();
    assert(s@.subrange(0, end as int) == s@);
    while end >= suffix.len() && ends_with(&s[0..end], suffix)
        invariant
            end <= s@.len(),
            suffix@.len() > 0,
            without_trailing(s@, suffix@) == without_trailing(s@.subrange(0, end as int), suffix@),
        decreases end,
    {
        assert(s@.subrange(0, end as int).subrange(0, end - suffix@.len()) == s@.subrange(
            0,
            end - suffix@.len(),
        ));
        end -= suffix.len();
    }
    &s[0..end]
}

/// The view of an optional byte string.
pub open spec fn opt_view(o: Option<Vec<u8>>) -> Option<Seq<u8>> {
    match o {
        Some(v) => Some(v@),
        None => None,
    }
}

/// The position of the last `b` in `s`, if it holds one.
pub open spec fn last_index_of(s: Seq<u8>, b: u8) -> Option<int>
    decreases s.len(),
{
    if s.len() == 0 {
        None
    } else if s.last() == b {
        Some(s.len() - 1)
    } else {
        last_index_of(s.drop_last(), b)
    }
}

/// Finds the last `b` in `s`.
pub fn find_last(s: &[u8], b: u8) -> (r: Option<usize>)
    ensures
        match r {
            Some(i) => i < s@.len() && last_index_of(s@, b) == Some(i as int),
            None => last_index_of(s@, b) is None,
        },
{
    let mut end: usize = s.len();
    assert(s@.take(end as int) =~= s@);
    while end > 0
        invariant
            end <= s@.len(),
            last_index_of(s@, b) == last_index_of(s@.take(end as int), b),
        decreases end,
    {
        if s[end - 1] == b {
            return Some(end - 1);
        }
        assert(s@.take(end as int).drop_last() =~= s@.take(end - 1));
        end -= 1;
    }
    None
}

/// The bytes of a text in UTF-8.
pub open spec fn utf8(s: Seq<char>) -> Seq<u8> {
    vstd::utf8::encode_utf8(s)
}

/// Borrows the bytes of a string.
pub fn string_bytes(s: &String) -> (r: &[u8])
    ensures
        r@ == utf8(s@),
{
    s.as_str().as_bytes()
}

/// How many of the flags are set.
pub open spec fn count_true(flags: Seq<bool>) -> nat
    decreases flags.len(),
{
    if flags.len() == 0 {
        0
    } else if flags.last() {
        count_true(flags.drop_last()) + 1
    } else {
        count_true(flags.drop_last())
    }
}

/// At most all of the flags are set.
pub proof fn lemma_count_true_bound(flags: Seq<bool>)
    ensures
        count_true(flags) <= flags.len(),
    decreases flags.len(),
{
    if flags.len() > 0 {
        lemma_count_true_bound(flags.drop_last());
    }
}

} // verus!
