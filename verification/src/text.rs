//! Character-level text primitives: searching, splitting, ASCII case folding
//! and decimal parsing. Everything is stated over `Seq<char>`, the view of
//! `str` and `String`.

use vstd::prelude::*;
use vstd::utf8::{decode_utf8, encode_utf8, valid_utf8};

verus! {

/// `pat` occurs in `s` starting at position `i`.
pub open spec fn occurs_at(s: Seq<char>, pat: Seq<char>, i: int) -> bool {
    &&& 0 <= i
    &&& i + pat.len() <= s.len()
    &&& forall|k: int| 0 <= k < pat.len() ==> s[i + k] == #[trigger] pat[k]
}

/// `i` is the leftmost position at which `pat` occurs in `s`.
pub open spec fn is_first_occurrence(s: Seq<char>, pat: Seq<char>, i: int) -> bool {
    &&& occurs_at(s, pat, i)
    &&& forall|j: int| 0 <= j < i ==> !occurs_at(s, pat, j)
}

/// The leftmost position at which `pat` occurs in `s`, if it occurs at all.
pub open spec fn find(s: Seq<char>, pat: Seq<char>) -> Option<int> {
    if exists|i: int| occurs_at(s, pat, i) {
        Some(choose|i: int| is_first_occurrence(s, pat, i))
    } else {
        None
    }
}

/// `s` begins with `pat`.
pub open spec fn starts_with(s: Seq<char>, pat: Seq<char>) -> bool {
    occurs_at(s, pat, 0)
}

/// `pat` occurs somewhere in `s`.
pub open spec fn contains(s: Seq<char>, pat: Seq<char>) -> bool {
    find(s, pat) is Some
}

/// The parts of `s` before and after the leftmost occurrence of `pat`.
pub open spec fn split_once(s: Seq<char>, pat: Seq<char>) -> Option<(Seq<char>, Seq<char>)> {
    match find(s, pat) {
        Some(i) => Some((s.take(i), s.skip(i + pat.len()))),
        None => None,
    }
}

/// A leftmost occurrence is what `find` returns.
pub proof fn lemma_find_first(s: Seq<char>, pat: Seq<char>, i: int)
    requires
        is_first_occurrence(s, pat, i),
    ensures
        find(s, pat) == Some(i),
{
    let j = choose|j: int| is_first_occurrence(s, pat, j);
    assert(is_first_occurrence(s, pat, j));
    assert(i == j);
}

/// Where `find` succeeds, it names a leftmost occurrence inside `s`.
pub proof fn lemma_find_some(s: Seq<char>, pat: Seq<char>)
    requires
        find(s, pat) is Some,
    ensures
        is_first_occurrence(s, pat, find(s, pat).unwrap()),
        0 <= find(s, pat).unwrap() <= s.len() - pat.len(),
{
    let w = choose|i: int| occurs_at(s, pat, i);
    lemma_least_occurrence(s, pat, w);
}

/// Below any occurrence there is a leftmost one.
proof fn lemma_least_occurrence(s: Seq<char>, pat: Seq<char>, w: int)
    requires
        occurs_at(s, pat, w),
    ensures
        exists|i: int| is_first_occurrence(s, pat, i),
    decreases w,
{
    if forall|j: int| 0 <= j < w ==> !occurs_at(s, pat, j) {
        assert(is_first_occurrence(s, pat, w));
    } else {
        let j = choose|j: int| 0 <= j < w && occurs_at(s, pat, j);
        lemma_least_occurrence(s, pat, j);
    }
}

/// The characters of a string slice, in order.
pub fn chars_of(s: &str) -> (v: Vec<char>)
    ensures
        v@ == s@,
{
    let mut v: Vec<char> = Vec::new();
    let it = s.chars();
    for c in iter: it
        invariant
            iter.seq() == s@,
            v@ == s@.take(iter.index() as int),
    {
        v.push(c);
    }
    v
}

/// Whether `pat` occurs in `hay` at position `at`.
pub fn matches_at(hay: &Vec<char>, pat: &Vec<char>, at: usize) -> (b: bool)
    ensures
        b == occurs_at(hay@, pat@, at as int),
{
    let n = hay.len();
    let m = pat.len();
    if at > n || m > n - at {
        return false;
    }
    let mut k: usize = 0;
    while k < m
        invariant
            n == hay.len(),
            m == pat.len(),
            at + m <= n,
            k <= m,
            forall|j: int| 0 <= j < k ==> hay@[at + j] == #[trigger] pat@[j],
        decreases m - k,
    {
        if hay[at + k] != pat[k] {
            return false;
        }
        k += 1;
    }
    true
}

/// An occurrence in a suffix of `s` is an occurrence in `s`, shifted.
pub proof fn lemma_occurs_at_skip(s: Seq<char>, pat: Seq<char>, from: int, j: int)
    requires
        0 <= from <= s.len(),
        0 <= j,
    ensures
        occurs_at(s.skip(from), pat, j) <==> occurs_at(s, pat, from + j),
{
    if occurs_at(s.skip(from), pat, j) {
        assert forall|k: int| 0 <= k < pat.len() implies s[from + j + k] == #[trigger] pat[k] by {
            assert(s.skip(from)[j + k] == s[from + j + k]);
        }
    }
    if occurs_at(s, pat, from + j) {
        let rest = s.skip(from);
        assert forall|k: int| 0 <= k < pat.len() implies rest[j + k] == #[trigger] pat[k] by {
            assert(s.skip(from)[j + k] == s[from + j + k]);
        }
    }
}

/// Leftmost position of `pat` in `hay` at or after `from`.
pub fn find_from(hay: &Vec<char>, pat: &Vec<char>, from: usize) -> (r: Option<usize>)
    requires
        from <= hay.len(),
    ensures
        match r {
            Some(i) => from <= i && i + pat.len() <= hay.len() && find(
                hay@.skip(from as int),
                pat@,
            ) == Some(i - from),
            None => find(hay@.skip(from as int), pat@) is None,
        },
{
    let n = hay.len();
    let m = pat.len();
    let ghost rest = hay@.skip(from as int);
    if m > n - from {
        return None;
    }
    let mut i: usize = from;
    while i <= n - m
        invariant
            n == hay.len(),
            m == pat.len(),
            from <= n,
            m <= n - from,
            from <= i <= n - m + 1,
            rest == hay@.skip(from as int),
            forall|j: int| 0 <= j < i - from ==> !occurs_at(rest, pat@, j),
        decreases n - m + 1 - i,
    {
        proof {
            lemma_occurs_at_skip(hay@, pat@, from as int, i - from);
        }
        if matches_at(hay, pat, i) {
            proof {
                lemma_find_first(rest, pat@, i - from);
            }
            return Some(i);
        }
        i += 1;
    }
    None
}

/// Leftmost position of `pat` in `hay`.
pub fn find_in(hay: &Vec<char>, pat: &Vec<char>) -> (r: Option<usize>)
    ensures
        match r {
            Some(i) => i + pat.len() <= hay.len() && find(hay@, pat@) == Some(i as int),
            None => find(hay@, pat@) is None,
        },
{
    assert(hay@.skip(0) =~= hay@);
    find_from(hay, pat, 0)
}

/// Whether `hay` begins with `pat`.
pub fn has_prefix(hay: &Vec<char>, pat: &Vec<char>) -> (b: bool)
    ensures
        b == starts_with(hay@, pat@),
{
    matches_at(hay, pat, 0)
}

/// Whether `pat` occurs anywhere in `hay`.
pub fn has_infix(hay: &Vec<char>, pat: &Vec<char>) -> (b: bool)
    ensures
        b == contains(hay@, pat@),
{
    find_in(hay, pat).is_some()
}

/// Whether two character vectors hold the same text.
pub fn same_text(a: &Vec<char>, b: &Vec<char>) -> (r: bool)
    ensures
        r == (a@ == b@),
{
    if a.len() != b.len() {
        return false;
    }
    let r = matches_at(a, b, 0);
    proof {
        if r {
            assert(a@ =~= b@);
        }
    }
    r
}

/// The lower-case form of an ASCII capital letter; every other character is
/// left as it is.
pub open spec fn lower_char(c: char) -> char {
    if 'A' <= c && c <= 'Z' {
        ((c as u8) + 32) as char
    } else {
        c
    }
}

/// `s` with every ASCII capital letter replaced by its lower-case form.
pub open spec fn ascii_lower(s: Seq<char>) -> Seq<char> {
    Seq::new(s.len(), |i: int| lower_char(s[i]))
}

/// Lower-case form of one character, ASCII letters only.
pub fn to_lower_char(c: char) -> (r: char)
    ensures
        r == lower_char(c),
{
    if 'A' <= c && c <= 'Z' {
        let b: u8 = c as u8;
        (b + 32) as char
    } else {
        c
    }
}

/// Lower-case copy of `v`, ASCII letters only.
pub fn to_ascii_lower(v: &Vec<char>) -> (r: Vec<char>)
    ensures
        r@ == ascii_lower(v@),
{
    let mut r: Vec<char> = Vec::new();
    let mut i: usize = 0;
    while i < v.len()
        invariant
            i <= v.len(),
            r@ == ascii_lower(v@.take(i as int)),
        decreases v.len() - i,
    {
        r.push(to_lower_char(v[i]));
        i += 1;
        assert(r@ =~= ascii_lower(v@.take(i as int)));
    }
    assert(v@.take(i as int) =~= v@);
    r
}

/// `c` is one of the decimal digits `0` to `9`.
pub open spec fn is_digit(c: char) -> bool {
    '0' <= c && c <= '9'
}

/// The number that the digit `c` stands for.
pub open spec fn digit_value(c: char) -> nat {
    ((c as u8) - 48) as nat
}

/// `s` holds decimal digits only.
pub open spec fn all_digits(s: Seq<char>) -> bool {
    forall|i: int| 0 <= i < s.len() ==> is_digit(#[trigger] s[i])
}

/// The number that a run of decimal digits denotes; the empty run denotes 0.
pub open spec fn decimal_value(s: Seq<char>) -> nat
    decreases s.len(),
{
    if s.len() == 0 {
        0
    } else {
        decimal_value(s.drop_last()) * 10 + digit_value(s.last())
    }
}

/// The digits of a decimal number written with an optional leading `+`.
pub open spec fn unsigned_digits(s: Seq<char>) -> Seq<char> {
    if s.len() > 0 && s[0] == '+' {
        s.skip(1)
    } else {
        s
    }
}

/// The value of `s` read as a non-negative decimal integer: an optional `+`,
/// then one or more digits and nothing else, and a value that fits in `usize`.
pub open spec fn parse_usize(s: Seq<char>) -> Option<usize> {
    let d = unsigned_digits(s);
    if d.len() > 0 && all_digits(d) && decimal_value(d) <= usize::MAX {
        Some(decimal_value(d) as usize)
    } else {
        None
    }
}

/// A longer run of digits never denotes less than one of its prefixes.
pub proof fn lemma_decimal_value_monotonic(s: Seq<char>, i: int, j: int)
    requires
        0 <= i <= j <= s.len(),
    ensures
        decimal_value(s.take(i)) <= decimal_value(s.take(j)),
    decreases j - i,
{
    if i < j {
        lemma_decimal_value_monotonic(s, i, j - 1);
        assert(s.take(j).drop_last() =~= s.take(j - 1));
    }
}

/// Reads `v` as a non-negative decimal integer.
pub fn to_usize(v: &Vec<char>) -> (r: Option<usize>)
    ensures
        r == parse_usize(v@),
{
    let n = v.len();
    let start: usize = if n > 0 && v[0] == '+' { 1 } else { 0 };
    let ghost d = unsigned_digits(v@);
    assert(d =~= v@.skip(start as int));
    if start == n {
        return None;
    }
    let mut acc: usize = 0;
    let mut i: usize = start;
    while i < n
        invariant
            n == v.len(),
            start <= i <= n,
            d == unsigned_digits(v@),
            d == v@.skip(start as int),
            all_digits(d.take(i - start)),
            acc == decimal_value(d.take(i - start)),
        decreases n - i,
    {
        let c = v[i];
        assert(d[i - start] == c);
        if !('0' <= c && c <= '9') {
            assert(!is_digit(d[i - start]));
            return None;
        }
        let digit: usize = (c as u8 - 48) as usize;
        proof {
            let longer = d.take(i - start + 1);
            assert(longer.drop_last() =~= d.take(i - start));
            assert(longer.last() == c);
            assert(decimal_value(longer) == acc * 10 + digit);
            lemma_decimal_value_monotonic(d, i - start + 1, d.len() as int);
            assert(d.take(d.len() as int) =~= d);
            assert(acc * 10 + digit <= decimal_value(d));
        }
        let scaled = match acc.checked_mul(10) {
            Some(x) => x,
            None => {
                return None;
            },
        };
        acc = match scaled.checked_add(digit) {
            Some(x) => x,
            None => {
                return None;
            },
        };
        i += 1;
    }
    assert(d.take(i - start) =~= d);
    Some(acc)
}

/// The text of `s` between the character positions `from` and `to`.
pub fn cut(s: &str, from: usize, to: usize) -> (r: String)
    requires
        from <= to <= s@.len(),
    ensures
        r@ == s@.subrange(from as int, to as int),
{
    s.substring_char(from, to).to_owned()
}

/// Whether two string slices hold the same text.
pub fn str_eq(a: &str, b: &str) -> (r: bool)
    ensures
        r == (a@ == b@),
{
    same_text(&chars_of(a), &chars_of(b))
}

/// Calls `std::str::from_utf8`: the text that `bytes` encode, or `None` where
/// they are not valid UTF-8. The text is the one whose UTF-8 encoding is
/// `bytes`.
#[verifier::external_body]
pub(crate) fn utf8_text(bytes: &[u8]) -> (r: Option<&str>)
    ensures
        match r {
            Some(s) => valid_utf8(bytes@) && encode_utf8(s@) == bytes@,
            None => !valid_utf8(bytes@),
        },
{
    match std::str::from_utf8(bytes) {
        Ok(s) => Some(s),
        Err(_) => None,
    }
}

/// Decodes `bytes` as UTF-8.
pub fn decode_text(bytes: &Vec<u8>) -> (r: Option<String>)
    ensures
        match r {
            Some(s) => valid_utf8(bytes@) && s@ == decode_utf8(bytes@),
            None => !valid_utf8(bytes@),
        },
{
    match utf8_text(bytes.as_slice()) {
        Some(s) => {
            proof {
                vstd::utf8::encode_utf8_decode_utf8(s@);
            }
            Some(s.to_owned())
        },
        None => None,
    }
}

} // verus!
