//! Parsing of MAC addresses written as six hexadecimal octets separated by
//! colons, such as `34:5A:60:94:2E:02`.

use vstd::prelude::*;
use vstd::string::*;

verus! {

/// The parts of `s` between occurrences of `sep`, as `str::split` gives them:
/// there is always at least one part, and empty parts are kept.
pub open spec fn split_on(s: Seq<char>, sep: char) -> Seq<Seq<char>>
    decreases s.len(),
{
    if s.len() == 0 {
        seq![Seq::<char>::empty()]
    } else {
        let rest = split_on(s.drop_last(), sep);
        if s.last() == sep {
            rest.push(Seq::<char>::empty())
        } else {
            rest.update(rest.len() - 1, rest.last().push(s.last()))
        }
    }
}

/// The value of a hexadecimal digit.
pub open spec fn hex_digit(c: char) -> Option<nat> {
    if '0' <= c && c <= '9' {
        Some((c as nat - '0' as nat) as nat)
    } else if 'a' <= c && c <= 'f' {
        Some((c as nat - 'a' as nat + 10) as nat)
    } else if 'A' <= c && c <= 'F' {
        Some((c as nat - 'A' as nat + 10) as nat)
    } else {
        None
    }
}

/// Every character of `s` is a hexadecimal digit.
pub open spec fn all_hex(s: Seq<char>) -> bool {
    forall|i: int| 0 <= i < s.len() ==> (#[trigger] hex_digit(s[i])) is Some
}

/// The number that the hexadecimal digits `s` denote.
pub open spec fn hex_value(s: Seq<char>) -> nat
    decreases s.len(),
{
    if s.len() == 0 {
        0
    } else {
        16 * hex_value(s.drop_last()) + hex_digit(s.last()).unwrap()
    }
}

/// The digits of a number written with an optional leading `+`.
pub open spec fn unsigned_digits(s: Seq<char>) -> Seq<char> {
    if s.len() > 1 && s[0] == '+' {
        s.subrange(1, s.len() as int)
    } else {
        s
    }
}

/// The byte that `u8::from_str_radix(s, 16)` gives: an optional `+`, then one
/// or more hexadecimal digits whose value is at most 255.
pub open spec fn hex_byte(s: Seq<char>) -> Option<u8> {
    let d = unsigned_digits(s);
    if d.len() > 0 && all_hex(d) && hex_value(d) <= 255 {
        Some(hex_value(d) as u8)
    } else {
        None
    }
}

/// The six octets that `text` names, if it is a MAC address.
pub open spec fn mac_octets(text: Seq<char>) -> Option<Seq<u8>> {
    let parts = split_on(text, ':');
    if parts.len() == 6 && forall|i: int| 0 <= i < 6 ==> (#[trigger] hex_byte(parts[i])) is Some {
        Some(Seq::new(6, |i: int| hex_byte(parts[i]).unwrap()))
    } else {
        None
    }
}

/// The text is not a MAC address.
#[derive(Clone, Copy, Debug, PartialEq, Eq, Structural)]
pub struct InvalidMacAddress;

proof fn lemma_split_nonempty(s: Seq<char>, sep: char)
    ensures
        split_on(s, sep).len() >= 1,
    decreases s.len(),
{
    if s.len() > 0 {
        lemma_split_nonempty(s.drop_last(), sep);
    }
}

/// Appending digits never makes the value smaller.
proof fn lemma_hex_value_grows(d: Seq<char>, k: int)
    requires
        0 <= k <= d.len(),
        all_hex(d),
    ensures
        hex_value(d) >= hex_value(d.subrange(0, k)),
    decreases d.len(),
{
    if k < d.len() {
        let p = d.drop_last();
        assert(all_hex(p)) by {
            assert forall|i: int| 0 <= i < p.len() implies (#[trigger] hex_digit(p[i])) is Some by {
                assert(p[i] == d[i]);
            }
        }
        lemma_hex_value_grows(p, k);
        assert(p.subrange(0, k) =~= d.subrange(0, k));
    } else {
        assert(d.subrange(0, k) =~= d);
    }
}

/// The value of a hexadecimal digit.
fn digit_value(c: char) -> (r: Option<u32>)
    ensures
        match r {
            Some(v) => hex_digit(c) == Some(v as nat),
            None => hex_digit(c) is None,
        },
{
    if '0' <= c && c <= '9' {
        Some((c as u32) - ('0' as u32))
    } else if 'a' <= c && c <= 'f' {
        Some((c as u32) - ('a' as u32) + 10)
    } else if 'A' <= c && c <= 'F' {
        Some((c as u32) - ('A' as u32) + 10)
    } else {
        None
    }
}

/// Parses one octet as `u8::from_str_radix(part, 16)` does.
pub fn parse_hex_byte(part: &Vec<char>) -> (r: Option<u8>)
    ensures
        r == hex_byte(part@),
{
    let n = part.len();
    if n == 0 {
        return None;
    }
    let start: usize = if n > 1 && part[0] == '+' {
        1
    } else {
        0
    };
    let ghost d = unsigned_digits(part@);
    assert(d =~= part@.subrange(start as int, n as int));
    let mut value: u32 = 0;
    for i in start..n
        invariant
            n == part@.len(),
            start <= n,
            d == part@.subrange(start as int, n as int),
            d == unsigned_digits(part@),
            value <= 255,
            value == hex_value(d.subrange(0, i - start)),
            forall|j: int| 0 <= j < i - start ==> (#[trigger] hex_digit(d[j])) is Some,
    {
        let ghost k = i - start;
        assert(d[k] == part@[i as int]);
        match digit_value(part[i]) {
            None => {
                assert(hex_digit(d[k]) is None);
                return None;
            },
            Some(v) => {
                assert(d.subrange(0, k + 1).drop_last() =~= d.subrange(0, k));
                assert(d.subrange(0, k + 1).last() == d[k]);
                value = value * 16 + v;
                if value > 255 {
                    proof {
                        if all_hex(d) {
                            lemma_hex_value_grows(d, k + 1);
                        }
                    }
                    return None;
                }
            },
        }
    }
    assert(d.subrange(0, n - start) =~= d);
    assert(d.len() > 0);
    Some(value as u8)
}

/// Splits `text` at every `sep`, as `str::split` does.
pub fn split_chars(text: &str, sep: char) -> (r: Vec<Vec<char>>)
    ensures
        r@.map_values(|p: Vec<char>| p@) == split_on(text@, sep),
{
    let n = text.unicode_len();
    let mut parts: Vec<Vec<char>> = Vec::new();
    parts.push(Vec::new());
    assert(parts@.map_values(|p: Vec<char>| p@) =~= split_on(text@.subrange(0, 0), sep));
    for i in 0..n
        invariant
            n == text@.len(),
            parts@.map_values(|p: Vec<char>| p@) == split_on(text@.subrange(0, i as int), sep),
    {
        let c = text.get_char(i);
        let ghost prefix = text@.subrange(0, i + 1);
        assert(prefix.drop_last() =~= text@.subrange(0, i as int));
        proof {
            lemma_split_nonempty(text@.subrange(0, i as int), sep);
        }
        if c == sep {
            parts.push(Vec::new());
            assert(parts@.map_values(|p: Vec<char>| p@) =~= split_on(prefix, sep));
        } else {
            let mut last = parts.pop().unwrap();
            last.push(c);
            parts.push(last);
            assert(parts@.map_values(|p: Vec<char>| p@) =~= split_on(prefix, sep));
        }
    }
    assert(text@.subrange(0, n as int) =~= text@);
    parts
}

/// Parses a MAC address written as six hexadecimal octets separated by colons.
pub fn parse_mac(mac: &str) -> (r: Result<[u8; 6], InvalidMacAddress>)
    ensures
        match r {
            Ok(octets) => mac_octets(mac@) == Some(octets@),
            Err(_) => mac_octets(mac@) is None,
        },
{
    let parts = split_chars(mac, ':');
    let ghost pv = parts@.map_values(|p: Vec<char>| p@);
    if parts.len() != 6 {
        return Err(InvalidMacAddress);
    }
    let mut bytes: [u8; 6] = [0u8; 6];
    for i in 0..6
        invariant
            parts@.len() == 6,
            pv == parts@.map_values(|p: Vec<char>| p@),
            pv == split_on(mac@, ':'),
            forall|j: int| 0 <= j < i ==> hex_byte(#[trigger] pv[j]) == Some(bytes@[j]),
    {
        assert(pv[i as int] == parts@[i as int]@);
        match parse_hex_byte(&parts[i]) {
            Some(b) => {
                bytes[i] = b;
            },
            None => {
                assert(hex_byte(pv[i as int]) is None);
                return Err(InvalidMacAddress);
            },
        }
    }
    assert(Seq::new(6, |i: int| hex_byte(pv[i]).unwrap()) =~= bytes@);
    Ok(bytes)
}

/// The upper-case hexadecimal digit for `v`.
pub open spec fn hex_char(v: nat) -> char {
    seq!['0', '1', '2', '3', '4', '5', '6', '7', '8', '9', 'A', 'B', 'C', 'D', 'E', 'F'][v as int]
}

/// An octet written as two upper-case hexadecimal digits.
pub open spec fn octet_text(b: u8) -> Seq<char> {
    seq![hex_char((b / 16) as nat), hex_char((b % 16) as nat)]
}

/// Six octets written as a MAC address: two digits each, separated by colons.
pub open spec fn mac_text(o: Seq<u8>) -> Seq<char> {
    octet_text(o[0]) + seq![':'] + octet_text(o[1]) + seq![':'] + octet_text(o[2]) + seq![':']
        + octet_text(o[3]) + seq![':'] + octet_text(o[4]) + seq![':'] + octet_text(o[5])
}

proof fn lemma_hex_char(v: nat)
    requires
        v < 16,
    ensures
        hex_digit(hex_char(v)) == Some(v),
        hex_char(v) != ':',
        hex_char(v) != '+',
{
    if v == 0 {} else if v == 1 {} else if v == 2 {} else if v == 3 {} else if v == 4 {}
    else if v == 5 {} else if v == 6 {} else if v == 7 {} else if v == 8 {} else if v == 9 {}
    else if v == 10 {} else if v == 11 {} else if v == 12 {} else if v == 13 {} else if v == 14 {}
    else {}
}

proof fn lemma_octet_text(b: u8)
    ensures
        hex_byte(octet_text(b)) == Some(b),
        octet_text(b)[0] != ':',
        octet_text(b)[1] != ':',
{
    let t = octet_text(b);
    let hi = (b / 16) as nat;
    let lo = (b % 16) as nat;
    lemma_hex_char(hi);
    lemma_hex_char(lo);
    assert(unsigned_digits(t) == t);
    assert(t.drop_last() =~= seq![hex_char(hi)]);
    assert(seq![hex_char(hi)].drop_last() =~= Seq::<char>::empty());
    assert(hex_value(Seq::<char>::empty()) == 0);
    assert(seq![hex_char(hi)].last() == hex_char(hi));
    assert(hex_value(seq![hex_char(hi)]) == hi);
    assert(t.last() == hex_char(lo));
    assert(hex_value(t) == 16 * hi + lo);
}

proof fn lemma_split_without_sep(b: Seq<char>, sep: char)
    requires
        forall|i: int| 0 <= i < b.len() ==> b[i] != sep,
    ensures
        split_on(b, sep) == seq![b],
    decreases b.len(),
{
    if b.len() > 0 {
        assert forall|i: int| 0 <= i < b.drop_last().len() implies b.drop_last()[i] != sep by {
            assert(b.drop_last()[i] == b[i]);
        }
        lemma_split_without_sep(b.drop_last(), sep);
        assert(b[b.len() - 1] != sep);
        assert(b.drop_last().push(b.last()) =~= b);
        assert(split_on(b, sep) =~= seq![b]);
    } else {
        assert(b =~= Seq::<char>::empty());
    }
}

proof fn lemma_split_append(a: Seq<char>, b: Seq<char>, sep: char)
    requires
        forall|i: int| 0 <= i < b.len() ==> b[i] != sep,
    ensures
        split_on(a + seq![sep] + b, sep) == split_on(a, sep).push(b),
    decreases b.len(),
{
    let s = a + seq![sep] + b;
    if b.len() == 0 {
        assert(s.drop_last() =~= a);
        assert(s.last() == sep);
        assert(b =~= Seq::<char>::empty());
    } else {
        assert forall|i: int| 0 <= i < b.drop_last().len() implies b.drop_last()[i] != sep by {
            assert(b.drop_last()[i] == b[i]);
        }
        assert(b[b.len() - 1] != sep);
        lemma_split_append(a, b.drop_last(), sep);
        assert(s.drop_last() =~= a + seq![sep] + b.drop_last());
        assert(s.last() == b.last());
        assert(b.drop_last().push(b.last()) =~= b);
        assert(split_on(s, sep) =~= split_on(a, sep).push(b));
    }
}

/// A MAC address written as six two-digit upper-case hexadecimal octets
/// separated by colons, as in `34:5A:60:94:2E:02`, parses back to its octets.
pub proof fn lemma_mac_text_roundtrip(o: Seq<u8>)
    requires
        o.len() == 6,
    ensures
        mac_octets(mac_text(o)) == Some(o),
{
    let t = Seq::new(6, |i: int| octet_text(o[i]));
    assert forall|i: int| 0 <= i < 6 implies hex_byte(#[trigger] t[i]) == Some(o[i]) && forall|
        j: int,
    | 0 <= j < t[i].len() ==> t[i][j] != ':' by {
        lemma_octet_text(o[i]);
    }
    lemma_split_without_sep(t[0], ':');
    let mut acc = t[0];
    lemma_split_append(acc, t[1], ':');
    acc = acc + seq![':'] + t[1];
    lemma_split_append(acc, t[2], ':');
    acc = acc + seq![':'] + t[2];
    lemma_split_append(acc, t[3], ':');
    acc = acc + seq![':'] + t[3];
    lemma_split_append(acc, t[4], ':');
    acc = acc + seq![':'] + t[4];
    lemma_split_append(acc, t[5], ':');
    acc = acc + seq![':'] + t[5];
    assert(acc == mac_text(o));
    let parts = split_on(mac_text(o), ':');
    assert(parts =~= t);
    assert(Seq::new(6, |i: int| hex_byte(parts[i]).unwrap()) =~= o);
}

} // verus!
