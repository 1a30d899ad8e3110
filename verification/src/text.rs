//! Character-level helpers shared by the rest of the library: building
//! strings, decimal numerals, lexicographic order and case folding.
use vstd::prelude::*;

verus! {

/// Collects the characters of `s` into a vector.
pub fn chars_of(s: &str) -> (v: Vec<char>)
    ensures
        v@ == s@,
{
    broadcast use vstd::string::group_string_axioms;

    let mut v: Vec<char> = Vec::new();
    for c in it: s.chars()
        invariant
            v@ == it.seq().take(it.index() as int),
            it.seq() == s@,
    {
        v.push(c);
    }
    v
}

/// Appends one character to a string (`String::push`).
#[verifier::external_body]
pub(crate) fn push_char(s: &mut String, c: char)
    ensures
        final(s)@ == old(s)@.push(c),
{
    s.push(c);
}

/// Appends a sequence of characters to a string.
pub fn push_chars(s: &mut String, cs: &Vec<char>)
    ensures
        final(s)@ == old(s)@ + cs@,
{
    let n = cs.len();
    let mut i: usize = 0;
    while i < n
        invariant
            n == cs@.len(),
            i <= n,
            s@ == old(s)@ + cs@.take(i as int),
        decreases n - i,
    {
        push_char(s, cs[i]);
        assert(cs@.take(i as int).push(cs@[i as int]) =~= cs@.take(i + 1));
        i = i + 1;
    }
    assert(cs@.take(n as int) =~= cs@);
}

/// Builds a string from a sequence of characters.
pub fn string_of(cs: &Vec<char>) -> (s: String)
    ensures
        s@ == cs@,
{
    let mut s = String::new();
    push_chars(&mut s, cs);
    s
}

/// Copies a string slice into an owned string.
pub fn owned(s: &str) -> (r: String)
    ensures
        r@ == s@,
{
    s.to_owned()
}

/// Whether two strings hold the same characters.
pub fn str_eq(a: &str, b: &str) -> (r: bool)
    ensures
        r == (a@ == b@),
{
    let x = chars_of(a);
    let y = chars_of(b);
    chars_eq(&x, &y)
}

/// Whether two character vectors are equal.
pub fn chars_eq(x: &Vec<char>, y: &Vec<char>) -> (r: bool)
    ensures
        r == (x@ == y@),
{
    if x.len() != y.len() {
        return false;
    }
    let n = x.len();
    let mut i: usize = 0;
    while i < n
        invariant
            n == x@.len(),
            n == y@.len(),
            i <= n,
            forall|j: int| 0 <= j < i ==> x@[j] == y@[j],
        decreases n - i,
    {
        if x[i] != y[i] {
            return false;
        }
        i = i + 1;
    }
    assert(x@ =~= y@);
    true
}

/// The character for the decimal digit `d`.
pub open spec fn digit_char(d: nat) -> char {
    ((48 + d) as u32) as char
}

/// Decimal numeral of `n`, most significant digit first, without
/// leading zeros ("0" for zero).
pub open spec fn decimal(n: nat) -> Seq<char>
    decreases n,
{
    if n < 10 {
        seq![digit_char(n)]
    } else {
        decimal(n / 10).push(digit_char(n % 10))
    }
}

/// Appends the decimal numeral of `n` to `s`.
pub fn push_decimal(s: &mut String, n: u64)
    ensures
        final(s)@ == old(s)@ + decimal(n as nat),
    decreases n,
{
    if n >= 10 {
        push_decimal(s, n / 10);
    }
    let d: u64 = n % 10;
    let c: char = char_from_digit(d);
    push_char(s, c);
    assert(s@ =~= old(s)@ + decimal(n as nat));
}

/// The character of a decimal digit.
pub fn char_from_digit(d: u64) -> (c: char)
    requires
        d < 10,
    ensures
        c == digit_char(d as nat),
{
    if d == 0 { '0' }
    else if d == 1 { '1' }
    else if d == 2 { '2' }
    else if d == 3 { '3' }
    else if d == 4 { '4' }
    else if d == 5 { '5' }
    else if d == 6 { '6' }
    else if d == 7 { '7' }
    else if d == 8 { '8' }
    else { '9' }
}

/// The decimal numeral of `n` as a string.
pub fn decimal_string(n: u64) -> (s: String)
    ensures
        s@ == decimal(n as nat),
{
    let mut s = String::new();
    push_decimal(&mut s, n);
    s
}

/// Strict lexicographic order on character sequences, comparing characters
/// by their code points. This is the order of `str`'s `Ord`, since UTF-8
/// preserves code point order byte by byte.
pub open spec fn seq_lt(a: Seq<char>, b: Seq<char>) -> bool
    decreases a.len(),
{
    if a.len() == 0 {
        b.len() > 0
    } else if b.len() == 0 {
        false
    } else if a[0] < b[0] {
        true
    } else if a[0] == b[0] {
        seq_lt(a.drop_first(), b.drop_first())
    } else {
        false
    }
}

/// Whether `a` comes strictly before `b` in lexicographic order.
pub fn chars_lt(a: &Vec<char>, b: &Vec<char>) -> (r: bool)
    ensures
        r == seq_lt(a@, b@),
{
    let n = a.len();
    let m = b.len();
    let mut i: usize = 0;
    assert(a@.skip(0) =~= a@);
    assert(b@.skip(0) =~= b@);
    while i < n && i < m && a[i] == b[i]
        invariant
            n == a@.len(),
            m == b@.len(),
            i <= n,
            i <= m,
            a@.take(i as int) == b@.take(i as int),
            seq_lt(a@, b@) == seq_lt(a@.skip(i as int), b@.skip(i as int)),
        decreases n - i,
    {
        assert(a@.skip(i as int).drop_first() =~= a@.skip(i + 1));
        assert(b@.skip(i as int).drop_first() =~= b@.skip(i + 1));
        assert(a@.take(i + 1) =~= a@.take(i as int).push(a@[i as int]));
        assert(b@.take(i + 1) =~= b@.take(i as int).push(b@[i as int]));
        i = i + 1;
    }
    assert(a@.skip(i as int).len() == n - i);
    assert(i < n ==> a@.skip(i as int)[0] == a@[i as int]);
    assert(i < m ==> b@.skip(i as int)[0] == b@[i as int]);
    if i == n {
        i < m
    } else if i == m {
        false
    } else {
        a[i] < b[i]
    }
}

} // verus!

verus! {

/// Whether every character of `s` is ASCII.
pub open spec fn is_ascii_chars(s: Seq<char>) -> bool {
    forall|i: int| 0 <= i < s.len() ==> (#[trigger] s[i] as u32) < 128
}

/// The ASCII lower-case form of a character: 'A'..='Z' become 'a'..='z',
/// every other character stays.
pub open spec fn ascii_lower_char(c: char) -> char {
    if 'A' <= c && c <= 'Z' {
        ((c as u32) + 32) as char
    } else {
        c
    }
}

/// The ASCII upper-case form of a character: 'a'..='z' become 'A'..='Z',
/// every other character stays.
pub open spec fn ascii_upper_char(c: char) -> char {
    if 'a' <= c && c <= 'z' {
        ((c as u32) - 32) as char
    } else {
        c
    }
}

/// `s` with its ASCII letters in lower case.
pub open spec fn ascii_lower(s: Seq<char>) -> Seq<char> {
    s.map_values(|c: char| ascii_lower_char(c))
}

/// `s` with its ASCII letters in upper case (what `str::to_ascii_uppercase`
/// gives).
pub open spec fn ascii_upper(s: Seq<char>) -> Seq<char> {
    s.map_values(|c: char| ascii_upper_char(c))
}

/// What `str::to_lowercase` gives for a string: the Unicode lowercase
/// mapping of each character, which may change the length.
pub uninterp spec fn lowercase(s: Seq<char>) -> Seq<char>;

/// `str::to_lowercase`: the contract names its result `lowercase` of the
/// argument's characters, and states that a string of ASCII characters is
/// lowered letter by letter, 'A'..='Z' to 'a'..='z' (the Unicode lowercase
/// mapping of ASCII characters); the Unicode case tables beyond ASCII are
/// not stated.
#[verifier::external_body]
pub(crate) fn to_lowercase(s: &str) -> (r: String)
    ensures
        r@ == lowercase(s@),
        is_ascii_chars(s@) ==> r@ == ascii_lower(s@),
{
    s.to_lowercase()
}

/// The part of `s` after the last `sep`, or all of `s` when `sep` does not
/// occur in it: the first item that `str::rsplit` yields.
pub open spec fn last_segment(s: Seq<char>, sep: char) -> Seq<char>
    decreases s.len(),
{
    if s.len() == 0 {
        s
    } else if s.last() == sep {
        Seq::empty()
    } else {
        last_segment(s.drop_last(), sep).push(s.last())
    }
}

/// The characters of `s` after its last `sep` (all of `s` without one).
pub fn last_segment_of(s: &Vec<char>, sep: char) -> (r: Vec<char>)
    ensures
        r@ == last_segment(s@, sep),
{
    let n = s.len();
    let mut start: usize = n;
    assert(s@.take(n as int) =~= s@);
    assert(last_segment(s@, sep) + s@.skip(n as int) =~= last_segment(s@, sep));
    // `start` walks back until the character before it is `sep`.
    while start > 0 && s[start - 1] != sep
        invariant
            n == s@.len(),
            start <= n,
            last_segment(s@, sep) == last_segment(s@.take(start as int), sep) + s@.skip(
                start as int,
            ),
        decreases start,
    {
        let ghost t = s@.take(start as int);
        assert(t.drop_last() =~= s@.take(start - 1));
        assert(s@.skip(start - 1) =~= seq![s@[start - 1]] + s@.skip(start as int));
        start = start - 1;
    }
    if start > 0 {
        let ghost t = s@.take(start as int);
        assert(t.last() == sep);
    } else {
        assert(s@.take(0) =~= Seq::<char>::empty());
    }
    let mut r: Vec<char> = Vec::new();
    let mut i = start;
    while i < n
        invariant
            n == s@.len(),
            start <= i <= n,
            r@ =~= s@.subrange(start as int, i as int),
        decreases n - i,
    {
        r.push(s[i]);
        i = i + 1;
    }
    assert(s@.skip(start as int) =~= s@.subrange(start as int, n as int));
    r
}

} // verus!

verus! {

/// The characters of `s` before its first `sep` (all of `s` without one):
/// the first item that `str::split` yields.
pub open spec fn first_segment(s: Seq<char>, sep: char) -> Seq<char>
    decreases s.len(),
{
    if s.len() == 0 {
        s
    } else if s[0] == sep {
        Seq::empty()
    } else {
        seq![s[0]] + first_segment(s.drop_first(), sep)
    }
}

/// The characters of `s` after its first `sep` (empty without one).
pub open spec fn after_first(s: Seq<char>, sep: char) -> Seq<char>
    decreases s.len(),
{
    if s.len() == 0 {
        s
    } else if s[0] == sep {
        s.drop_first()
    } else {
        after_first(s.drop_first(), sep)
    }
}

/// Splits `s` at its first `sep`: the part before it, and, when `sep`
/// occurs, the part after it.
pub fn split_first(s: &Vec<char>, sep: char) -> (r: (Vec<char>, Option<Vec<char>>))
    ensures
        r.0@ == first_segment(s@, sep),
        r.1 is Some <==> s@.contains(sep),
        r.1 matches Some(rest) ==> rest@ == after_first(s@, sep),
{
    let n = s.len();
    let mut head: Vec<char> = Vec::new();
    let mut i: usize = 0;
    assert(s@.skip(0) =~= s@);
    while i < n && s[i] != sep
        invariant
            n == s@.len(),
            i <= n,
            head@ == s@.take(i as int),
            forall|j: int| 0 <= j < i ==> s@[j] != sep,
            first_segment(s@, sep) == head@ + first_segment(s@.skip(i as int), sep),
            after_first(s@, sep) == after_first(s@.skip(i as int), sep),
        decreases n - i,
    {
        assert(s@.skip(i as int).drop_first() =~= s@.skip(i + 1));
        assert(s@.skip(i as int)[0] == s@[i as int]);
        head.push(s[i]);
        assert(head@ =~= s@.take(i + 1));
        i = i + 1;
    }
    if i == n {
        assert(s@.skip(n as int) =~= Seq::<char>::empty());
        assert(head@ =~= s@);
        assert(!s@.contains(sep));
        (head, None)
    } else {
        assert(s@.skip(i as int)[0] == sep);
        assert(s@.contains(sep)) by {
            assert(s@[i as int] == sep);
        }
        let mut rest: Vec<char> = Vec::new();
        let mut j: usize = i + 1;
        while j < n
            invariant
                n == s@.len(),
                i < j <= n,
                rest@ =~= s@.subrange(i + 1, j as int),
            decreases n - j,
        {
            rest.push(s[j]);
            j = j + 1;
        }
        assert(s@.skip(i as int).drop_first() =~= s@.subrange(i + 1, n as int));
        assert(head@ + Seq::<char>::empty() =~= head@);
        (head, Some(rest))
    }
}

} // verus!

verus! {

/// Lexicographic order never puts a sequence before itself.
pub proof fn lemma_seq_lt_irreflexive(a: Seq<char>)
    ensures
        !seq_lt(a, a),
    decreases a.len(),
{
    if a.len() > 0 {
        lemma_seq_lt_irreflexive(a.drop_first());
    }
}

/// Lexicographic order is asymmetric.
pub proof fn lemma_seq_lt_asymmetric(a: Seq<char>, b: Seq<char>)
    ensures
        seq_lt(a, b) ==> !seq_lt(b, a),
    decreases a.len(),
{
    if a.len() > 0 && b.len() > 0 && a[0] == b[0] {
        lemma_seq_lt_asymmetric(a.drop_first(), b.drop_first());
    }
}

/// Lexicographic order is transitive.
pub proof fn lemma_seq_lt_transitive(a: Seq<char>, b: Seq<char>, c: Seq<char>)
    ensures
        seq_lt(a, b) && seq_lt(b, c) ==> seq_lt(a, c),
    decreases a.len(),
{
    if a.len() > 0 && b.len() > 0 && c.len() > 0 && a[0] == b[0] && b[0] == c[0] {
        lemma_seq_lt_transitive(a.drop_first(), b.drop_first(), c.drop_first());
    }
}

/// Lexicographic order is total: of two different sequences, one comes first.
pub proof fn lemma_seq_lt_total(a: Seq<char>, b: Seq<char>)
    ensures
        a != b ==> seq_lt(a, b) || seq_lt(b, a),
    decreases a.len(),
{
    if a.len() > 0 && b.len() > 0 && a[0] == b[0] {
        lemma_seq_lt_total(a.drop_first(), b.drop_first());
        if a.drop_first() == b.drop_first() {
            assert(a =~= seq![a[0]] + a.drop_first());
            assert(b =~= seq![b[0]] + b.drop_first());
        }
    } else if a.len() == 0 && b.len() == 0 {
        assert(a =~= b);
    }
}

} // verus!

verus! {

/// Whether `c` is an ASCII decimal digit.
pub open spec fn is_digit(c: char) -> bool {
    '0' <= c && c <= '9'
}

/// The number that a string of decimal digits denotes.
pub open spec fn digits_value(s: Seq<char>) -> nat
    decreases s.len(),
{
    if s.len() == 0 {
        0
    } else {
        digits_value(s.drop_last()) * 10 + ((s.last() as u32) - 48) as nat
    }
}

/// The digits of an unsigned numeral: the text after an optional '+'.
pub open spec fn unsigned_digits(s: Seq<char>) -> Seq<char> {
    if s.len() > 0 && s[0] == '+' {
        s.drop_first()
    } else {
        s
    }
}

/// Whether every character of `d` is a decimal digit.
pub open spec fn all_digits(d: Seq<char>) -> bool {
    forall|i: int| 0 <= i < d.len() ==> #[trigger] is_digit(d[i])
}

/// What `usize::from_str` gives for a string: an optional '+' followed by
/// at least one decimal digit, denoting a number that fits in a `usize`;
/// anything else is an error.
pub open spec fn parsed_usize(s: Seq<char>) -> Option<nat> {
    let d = unsigned_digits(s);
    if d.len() == 0 || !all_digits(d) {
        None
    } else if digits_value(d) > usize::MAX {
        None
    } else {
        Some(digits_value(d))
    }
}

/// Parses a decimal `usize` as `str::parse::<usize>` does.
pub fn parse_usize(s: &Vec<char>) -> (r: Option<usize>)
    ensures
        match parsed_usize(s@) {
            Some(v) => r == Some(v as usize),
            None => r is None,
        },
{
    let n = s.len();
    let start: usize = if n > 0 && s[0] == '+' {
        1
    } else {
        0
    };
    let ghost d = unsigned_digits(s@);
    assert(d =~= s@.skip(start as int));
    if start == n {
        return None;
    }
    let mut acc: usize = 0;
    let mut i: usize = start;
    let mut overflow = false;
    assert(d.take(0) =~= Seq::<char>::empty());
    while i < n
        invariant
            n == s@.len(),
            start <= i <= n,
            start <= 1,
            d =~= s@.skip(start as int),
            d == unsigned_digits(s@),
            forall|t: int| start <= t < i ==> #[trigger] is_digit(s@[t]),
            !overflow ==> acc == digits_value(d.take(i - start)),
            overflow ==> digits_value(d.take(i - start)) > usize::MAX,
        decreases n - i,
    {
        let c = s[i];
        if !('0' <= c && c <= '9') {
            assert(d[i - start] == s@[i as int]);
            assert(!is_digit(d[i - start]));
            assert(!all_digits(d));
            return None;
        }
        let ghost k = i - start;
        let ghost t = d.take(k + 1);
        assert(t.drop_last() =~= d.take(k));
        assert(t.last() == c);
        let digit: usize = ((c as u32) - 48) as usize;
        assert(d[k] == c);
        if !overflow {
            match acc.checked_mul(10) {
                Some(m) => match m.checked_add(digit) {
                    Some(v) => {
                        acc = v;
                    },
                    None => {
                        overflow = true;
                    },
                },
                None => {
                    overflow = true;
                },
            }
        } else {
            assert(digits_value(t) >= digits_value(d.take(k))) by (nonlinear_arith)
                requires
                    digits_value(t) == digits_value(d.take(k)) * 10 + ((c as u32) - 48) as nat,
            ;
        }
        i = i + 1;
    }
    assert(d.take(n - start) =~= d);
    assert forall|t: int| 0 <= t < d.len() implies #[trigger] is_digit(d[t]) by {
        assert(d[t] == s@[t + start]);
    }
    if overflow {
        None
    } else {
        Some(acc)
    }
}

} // verus!

verus! {

/// The part after the last `sep` of `a`, `sep` and a `sep`-free `e` is `e`.
pub proof fn lemma_last_segment_after(a: Seq<char>, sep: char, e: Seq<char>)
    requires
        !e.contains(sep),
    ensures
        last_segment(a + seq![sep] + e, sep) == e,
    decreases e.len(),
{
    let s = a + seq![sep] + e;
    if e.len() == 0 {
        assert(s.last() == sep);
        assert(e =~= Seq::<char>::empty());
    } else {
        assert(e.last() == e[e.len() - 1]);
        assert(s.last() == e.last());
        assert(!e.drop_last().contains(sep)) by {
            if e.drop_last().contains(sep) {
                let i = choose|i: int| 0 <= i < e.drop_last().len() && e.drop_last()[i] == sep;
                assert(e[i] == sep);
            }
        }
        assert(s.drop_last() =~= a + seq![sep] + e.drop_last());
        lemma_last_segment_after(a, sep, e.drop_last());
        assert(e.drop_last().push(e.last()) =~= e);
    }
}

/// Upper-casing ASCII letters commutes with taking the part after the last
/// '.', which is no letter.
pub proof fn lemma_last_segment_upper(s: Seq<char>)
    ensures
        last_segment(ascii_upper(s), '.') == ascii_upper(last_segment(s, '.')),
    decreases s.len(),
{
    if s.len() > 0 {
        let u = ascii_upper(s);
        assert(u.last() == ascii_upper_char(s.last()));
        assert(u.drop_last() =~= ascii_upper(s.drop_last()));
        lemma_last_segment_upper(s.drop_last());
        if s.last() == '.' {
            assert(ascii_upper(Seq::<char>::empty()) =~= Seq::<char>::empty());
        } else {
            assert(u.last() != '.');
            assert(ascii_upper(last_segment(s.drop_last(), '.').push(s.last())) =~= ascii_upper(
                last_segment(s.drop_last(), '.'),
            ).push(ascii_upper_char(s.last())));
        }
    } else {
        assert(ascii_upper(s) =~= s);
    }
}

/// The part after the last `sep` of an ASCII sequence is ASCII.
pub proof fn lemma_last_segment_ascii(s: Seq<char>, sep: char)
    requires
        is_ascii_chars(s),
    ensures
        is_ascii_chars(last_segment(s, sep)),
    decreases s.len(),
{
    if s.len() > 0 {
        assert(is_ascii_chars(s.drop_last())) by {
            assert forall|i: int| 0 <= i < s.drop_last().len() implies (#[trigger] s.drop_last()[i] as u32)
                < 128 by {
                assert(s.drop_last()[i] == s[i]);
            }
        }
        lemma_last_segment_ascii(s.drop_last(), sep);
        assert((s[s.len() - 1] as u32) < 128);
        let t = last_segment(s.drop_last(), sep);
        if s.last() != sep {
            assert forall|i: int| 0 <= i < t.push(s.last()).len() implies (#[trigger] t.push(
                s.last(),
            )[i] as u32) < 128 by {
                if i < t.len() {
                    assert(t.push(s.last())[i] == t[i]);
                }
            }
        }
    }
}

/// Upper-casing keeps a sequence ASCII, and lower-casing undoes it.
pub proof fn lemma_ascii_upper_lower(s: Seq<char>)
    requires
        is_ascii_chars(s),
    ensures
        is_ascii_chars(ascii_upper(s)),
        ascii_lower(ascii_upper(s)) == ascii_lower(s),
{
    assert forall|i: int| 0 <= i < ascii_upper(s).len() implies (#[trigger] ascii_upper(s)[i] as u32)
        < 128 by {
        assert((s[i] as u32) < 128);
    }
    assert forall|i: int| 0 <= i < s.len() implies #[trigger] ascii_lower(ascii_upper(s))[i]
        == ascii_lower(s)[i] by {
        let c = s[i];
        assert(ascii_upper(s)[i] == ascii_upper_char(c));
    }
    assert(ascii_lower(ascii_upper(s)) =~= ascii_lower(s));
}

} // verus!

verus! {

/// Splitting `a`, `sep`, `b` at its first `sep`, where `a` holds none, gives
/// `a` before it and `b` after it.
pub proof fn lemma_split_at_first(a: Seq<char>, sep: char, b: Seq<char>)
    requires
        !a.contains(sep),
    ensures
        first_segment(a + seq![sep] + b, sep) == a,
        after_first(a + seq![sep] + b, sep) == b,
    decreases a.len(),
{
    let s = a + seq![sep] + b;
    if a.len() == 0 {
        assert(s[0] == sep);
        assert(s.drop_first() =~= b);
        assert(a =~= Seq::<char>::empty());
    } else {
        assert(s[0] == a[0]);
        assert(a[0] != sep);
        assert(!a.drop_first().contains(sep)) by {
            if a.drop_first().contains(sep) {
                let i = choose|i: int| 0 <= i < a.drop_first().len() && a.drop_first()[i] == sep;
                assert(a[i + 1] == sep);
            }
        }
        assert(s.drop_first() =~= a.drop_first() + seq![sep] + b);
        lemma_split_at_first(a.drop_first(), sep, b);
        assert(seq![a[0]] + a.drop_first() =~= a);
    }
}

/// A sequence without `sep` is its own first segment.
pub proof fn lemma_first_segment_whole(s: Seq<char>, sep: char)
    requires
        !s.contains(sep),
    ensures
        first_segment(s, sep) == s,
    decreases s.len(),
{
    if s.len() > 0 {
        assert(s[0] != sep);
        assert(!s.drop_first().contains(sep)) by {
            if s.drop_first().contains(sep) {
                let i = choose|i: int| 0 <= i < s.drop_first().len() && s.drop_first()[i] == sep;
                assert(s[i + 1] == sep);
            }
        }
        lemma_first_segment_whole(s.drop_first(), sep);
        assert(seq![s[0]] + s.drop_first() =~= s);
    }
}

} // verus!
