//! Building the query strings of requests to the media mesh.
use vstd::prelude::*;
use vstd::string::StringSliceAdditionalSpecFns;

use crate::text::{chars_of, digit_char, push_char, push_chars};

verus! {

/// Bytes that stand for themselves in a URL: ASCII letters, digits and
/// `-`, `.`, `_`, `~`.
pub open spec fn is_unreserved(b: u8) -> bool {
    (65 <= b <= 90) || (97 <= b <= 122) || (48 <= b <= 57) || b == 45 || b == 46 || b == 95 || b
        == 126
}

/// The upper-case hexadecimal digit for `n < 16`.
pub open spec fn upper_hex_digit(n: nat) -> char {
    if n < 10 {
        digit_char(n)
    } else {
        ((55 + n) as u32) as char
    }
}

/// Percent-encoding of some bytes: unreserved bytes as themselves, every
/// other byte as '%' and two upper-case hexadecimal digits.
pub open spec fn percent_encoded(bytes: Seq<u8>) -> Seq<char>
    decreases bytes.len(),
{
    if bytes.len() == 0 {
        Seq::empty()
    } else {
        let b = bytes.last();
        percent_encoded(bytes.drop_last()) + if is_unreserved(b) {
            seq![(b as u32) as char]
        } else {
            seq!['%', upper_hex_digit((b / 16) as nat), upper_hex_digit((b % 16) as nat)]
        }
    }
}

fn upper_hex_char(n: u8) -> (c: char)
    requires
        n < 16,
    ensures
        c == upper_hex_digit(n as nat),
{
    if n < 10 {
        crate::text::char_from_digit(n as u64)
    } else if n == 10 {
        'A'
    } else if n == 11 {
        'B'
    } else if n == 12 {
        'C'
    } else if n == 13 {
        'D'
    } else if n == 14 {
        'E'
    } else {
        'F'
    }
}

fn byte_char(b: u8) -> (c: char)
    requires
        b < 128,
    ensures
        c == (b as u32) as char,
{
    b as char
}

/// Percent-encodes text (as UTF-8) for a URL's query.
pub fn encode_component(s: &str) -> (r: String)
    ensures
        r@ == percent_encoded(s.spec_bytes()),
{
    let bytes = s.as_bytes();
    let n = bytes.len();
    let mut r = String::new();
    let mut i: usize = 0;
    while i < n
        invariant
            n == bytes@.len(),
            bytes@ == s.spec_bytes(),
            i <= n,
            r@ == percent_encoded(bytes@.take(i as int)),
        decreases n - i,
    {
        let b = bytes[i];
        let unreserved = (65 <= b && b <= 90) || (97 <= b && b <= 122) || (48 <= b && b <= 57)
            || b == 45 || b == 46 || b == 95 || b == 126;
        if unreserved {
            push_char(&mut r, byte_char(b));
        } else {
            push_char(&mut r, '%');
            push_char(&mut r, upper_hex_char(b / 16));
            push_char(&mut r, upper_hex_char(b % 16));
        }
        let ghost t = bytes@.take(i + 1);
        assert(t.drop_last() =~= bytes@.take(i as int));
        assert(r@ =~= percent_encoded(t));
        i = i + 1;
    }
    assert(bytes@.take(n as int) =~= bytes@);
    r
}

/// Appends "name=value" to a query string, percent-encoding the value and
/// putting '&' before it unless the query is empty.
pub fn push_param(query: &mut String, name: &str, value: &str)
    ensures
        final(query)@ == old(query)@ + (if old(query)@.len() == 0 {
            Seq::empty()
        } else {
            seq!['&']
        }) + name@ + seq!['='] + percent_encoded(value.spec_bytes()),
{
    let ghost before = query@;
    if chars_of(query.as_str()).len() > 0 {
        push_char(query, '&');
    }
    push_chars(query, &chars_of(name));
    push_char(query, '=');
    let v = encode_component(value);
    push_chars(query, &chars_of(v.as_str()));
    assert(query@ =~= before + (if before.len() == 0 {
        Seq::empty()
    } else {
        seq!['&']
    }) + name@ + seq!['='] + percent_encoded(value.spec_bytes()));
}

} // verus!
