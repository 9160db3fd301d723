//! Character-level operations on file names and paths.

use vstd::prelude::*;
use vstd::string::*;
use vstd::utf8::{decode_utf8, valid_utf8};

verus! {

/// `p` is a prefix of `s`.
pub open spec fn has_prefix(s: Seq<char>, p: Seq<char>) -> bool {
    p.len() <= s.len() && s.subrange(0, p.len() as int) == p
}

/// `p` is a suffix of `s`.
pub open spec fn has_suffix(s: Seq<char>, p: Seq<char>) -> bool {
    p.len() <= s.len() && s.subrange(s.len() - p.len(), s.len() as int) == p
}

/// `s` holds two consecutive dots somewhere.
pub open spec fn has_double_dot(s: Seq<char>) -> bool {
    exists|i: int| 0 <= i && i + 1 < s.len() && #[trigger] s[i] == '.' && s[i + 1] == '.'
}

/// Whether `s` starts with `p`.
pub fn starts_with_str(s: &str, p: &str) -> (r: bool)
    ensures
        r == has_prefix(s@, p@),
{
    let n = s.unicode_len();
    let m = p.unicode_len();
    if m > n {
        return false;
    }
    for i in 0..m
        invariant
            n == s@.len(),
            m == p@.len(),
            m <= n,
            forall|j: int| 0 <= j < i ==> s@[j] == p@[j],
    {
        if s.get_char(i) != p.get_char(i) {
            assert(s@.subrange(0, m as int)[i as int] != p@[i as int]);
            return false;
        }
    }
    assert(s@.subrange(0, m as int) =~= p@);
    true
}

/// Whether `s` ends with `p`.
pub fn ends_with_str(s: &str, p: &str) -> (r: bool)
    ensures
        r == has_suffix(s@, p@),
{
    let n = s.unicode_len();
    let m = p.unicode_len();
    if m > n {
        return false;
    }
    let off = n - m;
    for i in 0..m
        invariant
            n == s@.len(),
            m == p@.len(),
            m <= n,
            off == n - m,
            forall|j: int| 0 <= j < i ==> s@[off + j] == p@[j],
    {
        if s.get_char(off + i) != p.get_char(i) {
            assert(s@.subrange(off as int, n as int)[i as int] != p@[i as int]);
            return false;
        }
    }
    assert(s@.subrange(off as int, n as int) =~= p@);
    true
}

/// `s` with the prefix `p` taken off, or `None` where `s` does not start with `p`.
pub fn strip_prefix_str(s: &str, p: &str) -> (r: Option<String>)
    ensures
        match r {
            Some(rest) => has_prefix(s@, p@) && rest@ == s@.subrange(p@.len() as int, s@.len() as int),
            None => !has_prefix(s@, p@),
        },
{
    if starts_with_str(s, p) {
        let n = s.unicode_len();
        let m = p.unicode_len();
        Some(s.substring_char(m, n).to_owned())
    } else {
        None
    }
}

/// `s` with the suffix `p` taken off, or `None` where `s` does not end with `p`.
pub fn strip_suffix_str(s: &str, p: &str) -> (r: Option<String>)
    ensures
        match r {
            Some(rest) => has_suffix(s@, p@) && rest@ == s@.subrange(0, s@.len() - p@.len()),
            None => !has_suffix(s@, p@),
        },
{
    if ends_with_str(s, p) {
        let n = s.unicode_len();
        let m = p.unicode_len();
        Some(s.substring_char(0, n - m).to_owned())
    } else {
        None
    }
}

/// Whether `s` holds two consecutive dots.
pub fn contains_double_dot(s: &str) -> (r: bool)
    ensures
        r == has_double_dot(s@),
{
    let n = s.unicode_len();
    if n < 2 {
        return false;
    }
    for i in 0..n - 1
        invariant
            n == s@.len(),
            n >= 2,
            forall|j: int| 0 <= j < i ==> !(#[trigger] s@[j] == '.' && s@[j + 1] == '.'),
    {
        if s.get_char(i) == '.' && s.get_char(i + 1) == '.' {
            return true;
        }
    }
    false
}

/// Whether the first character of `s` is `c`.
pub fn first_char_is(s: &str, c: char) -> (r: bool)
    ensures
        r == (s@.len() > 0 && s@[0] == c),
{
    if s.unicode_len() == 0 {
        false
    } else {
        s.get_char(0) == c
    }
}

/// Calls `std::str::from_utf8`, which succeeds exactly on valid UTF-8; the
/// string it gives is the one that the bytes encode.
#[verifier::external_body]
pub(crate) fn utf8_string(bytes: &[u8]) -> (r: Option<String>)
    ensures
        r is Some <==> valid_utf8(bytes@),
        r matches Some(s) ==> s@ == decode_utf8(bytes@),
{
    match std::str::from_utf8(bytes) {
        Ok(s) => Some(s.to_string()),
        Err(_) => None,
    }
}

} // verus!
