//! Small text operations with contracts over characters.

use vstd::prelude::*;
use vstd::utf8::{decode_utf8, encode_utf8, valid_utf8};

verus! {

broadcast use vstd::utf8::encode_utf8_decode_utf8;

/// Decodes bytes as UTF-8 text, as `std::str::from_utf8` does, and copies the
/// text out. The contract claims that the call succeeds exactly on valid UTF-8
/// and then yields the characters that the bytes encode.
#[verifier::external_body]
pub(crate) fn utf8_to_string(bytes: &[u8]) -> (r: Option<String>)
    ensures
        r is Some <==> valid_utf8(bytes@),
        r matches Some(s) ==> s@ == decode_utf8(bytes@),
{
    match std::str::from_utf8(bytes) {
        Ok(text) => Some(text.to_owned()),
        Err(_) => None,
    }
}

/// Appends a character to a text, as `String::push` does.
#[verifier::external_body]
pub(crate) fn push_char(text: &mut String, c: char)
    ensures
        final(text)@ == old(text)@.push(c),
{
    text.push(c);
}

/// The decimal digit for a value below ten.
pub open spec fn spec_digit(d: int) -> char {
    if d == 0 {
        '0'
    } else if d == 1 {
        '1'
    } else if d == 2 {
        '2'
    } else if d == 3 {
        '3'
    } else if d == 4 {
        '4'
    } else if d == 5 {
        '5'
    } else if d == 6 {
        '6'
    } else if d == 7 {
        '7'
    } else if d == 8 {
        '8'
    } else {
        '9'
    }
}

/// A number written in decimal, without leading zeros.
pub open spec fn spec_decimal(n: nat) -> Seq<char>
    decreases n,
{
    if n < 10 {
        seq![spec_digit(n as int)]
    } else {
        spec_decimal(n / 10).push(spec_digit((n % 10) as int))
    }
}

fn digit(d: u64) -> (c: char)
    requires
        d < 10,
    ensures
        c == spec_digit(d as int),
{
    if d == 0 {
        '0'
    } else if d == 1 {
        '1'
    } else if d == 2 {
        '2'
    } else if d == 3 {
        '3'
    } else if d == 4 {
        '4'
    } else if d == 5 {
        '5'
    } else if d == 6 {
        '6'
    } else if d == 7 {
        '7'
    } else if d == 8 {
        '8'
    } else {
        '9'
    }
}

/// Appends a number in decimal to a text.
pub fn push_decimal(text: &mut String, n: u64)
    ensures
        final(text)@ == old(text)@ + spec_decimal(n as nat),
    decreases n,
{
    if n >= 10 {
        push_decimal(text, n / 10);
    }
    push_char(text, digit(n % 10));
    assert(text@ =~= old(text)@ + spec_decimal(n as nat));
}

/// A signed number in decimal: a minus sign before the digits of a negative
/// one.
pub open spec fn spec_signed_decimal(n: int) -> Seq<char> {
    if n < 0 {
        seq!['-'] + spec_decimal((-n) as nat)
    } else {
        spec_decimal(n as nat)
    }
}

/// Appends a signed number in decimal to a text.
pub fn push_signed_decimal(text: &mut String, n: i64)
    ensures
        final(text)@ == old(text)@ + spec_signed_decimal(n as int),
{
    if n < 0 {
        push_char(text, '-');
        let magnitude: u64 = (-(n + 1)) as u64 + 1;
        push_decimal(text, magnitude);
        assert(text@ =~= old(text)@ + spec_signed_decimal(n as int));
    } else {
        push_decimal(text, n as u64);
    }
}

/// Whether two texts hold the same characters.
pub fn str_eq(a: &str, b: &str) -> (r: bool)
    ensures
        r == (a@ == b@),
{
    let x = a.as_bytes();
    let y = b.as_bytes();
    proof {
        assert(decode_utf8(encode_utf8(a@)) == a@);
        assert(decode_utf8(encode_utf8(b@)) == b@);
    }
    let n = x.len();
    if n != y.len() {
        return false;
    }
    let mut i: usize = 0;
    while i < n
        invariant
            n == x@.len(),
            n == y@.len(),
            i <= n,
            x@ == encode_utf8(a@),
            y@ == encode_utf8(b@),
            forall|j: int| 0 <= j < i ==> x@[j] == y@[j],
        decreases n - i,
    {
        if x[i] != y[i] {
            return false;
        }
        i = i + 1;
    }
    assert(x@ =~= y@);
    true
}

/// A new text made of the characters of `a` followed by those of `b`.
pub fn join2(a: &str, b: &str) -> (r: String)
    ensures
        r@ == a@ + b@,
{
    let mut r = <String as StringExecFns>::from_str(a);
    r.append(b);
    r
}

/// A new text made of the characters of `a`, `b` and `c`.
pub fn join3(a: &str, b: &str, c: &str) -> (r: String)
    ensures
        r@ == a@ + b@ + c@,
{
    let mut r = <String as StringExecFns>::from_str(a);
    r.append(b);
    r.append(c);
    r
}

/// A copy of a text.
pub fn copy_text(a: &str) -> (r: String)
    ensures
        r@ == a@,
{
    <String as StringExecFns>::from_str(a)
}

/// The position of the last occurrence of `c`.
pub open spec fn spec_last_index_of(s: Seq<char>, c: char) -> Option<int>
    decreases s.len(),
{
    if s.len() == 0 {
        None
    } else if s.last() == c {
        Some(s.len() - 1)
    } else {
        spec_last_index_of(s.drop_last(), c)
    }
}

/// Whether `pattern` occurs at position `i`.
pub open spec fn spec_occurs_at(s: Seq<char>, pattern: Seq<char>, i: int) -> bool {
    0 <= i && i + pattern.len() <= s.len() && s.subrange(i, i + pattern.len()) == pattern
}

/// The position of the first occurrence of `pattern` at or after `from`.
pub open spec fn spec_find_from(s: Seq<char>, pattern: Seq<char>, from: int) -> Option<int>
    decreases s.len() + 1 - from,
{
    if from < 0 || from + pattern.len() > s.len() {
        None
    } else if spec_occurs_at(s, pattern, from) {
        Some(from)
    } else {
        spec_find_from(s, pattern, from + 1)
    }
}

/// A position that the search finds is one where the pattern occurs.
pub proof fn lemma_find_in_range(s: Seq<char>, pattern: Seq<char>, from: int)
    ensures
        spec_find_from(s, pattern, from) matches Some(i) ==> from <= i && spec_occurs_at(
            s,
            pattern,
            i,
        ),
    decreases s.len() + 1 - from,
{
    if from >= 0 && from + pattern.len() <= s.len() && !spec_occurs_at(s, pattern, from) {
        lemma_find_in_range(s, pattern, from + 1);
    }
}

/// The position of the first occurrence of `pattern`.
pub open spec fn spec_find(s: Seq<char>, pattern: Seq<char>) -> Option<int> {
    spec_find_from(s, pattern, 0)
}

/// Finds the last occurrence of a character.
pub fn last_index_of(s: &str, c: char) -> (r: Option<usize>)
    ensures
        match spec_last_index_of(s@, c) {
            Some(i) => r matches Some(k) && k == i,
            None => r is None,
        },
{
    let n = s.unicode_len();
    let mut i = n;
    assert(s@.subrange(0, n as int) =~= s@);
    while i > 0
        invariant
            n == s@.len(),
            i <= n,
            spec_last_index_of(s@, c) == spec_last_index_of(s@.subrange(0, i as int), c),
        decreases i,
    {
        let ghost prefix = s@.subrange(0, i as int);
        if s.get_char(i - 1) == c {
            return Some(i - 1);
        }
        assert(prefix.drop_last() =~= s@.subrange(0, i - 1));
        i = i - 1;
    }
    None
}

/// Finds the first occurrence of a text.
pub fn find(s: &str, pattern: &str) -> (r: Option<usize>)
    ensures
        match spec_find(s@, pattern@) {
            Some(i) => r matches Some(k) && k == i,
            None => r is None,
        },
{
    let n = s.unicode_len();
    let m = pattern.unicode_len();
    if m > n {
        return None;
    }
    if m == 0 {
        assert(s@.subrange(0, 0) =~= pattern@);
        return Some(0);
    }
    let mut i: usize = 0;
    while i <= n - m
        invariant
            n == s@.len(),
            m == pattern@.len(),
            0 < m <= n,
            i <= n - m + 1,
            spec_find(s@, pattern@) == spec_find_from(s@, pattern@, i as int),
        decreases n - i,
    {
        let mut j: usize = 0;
        let mut matched = true;
        while j < m
            invariant
                n == s@.len(),
                m == pattern@.len(),
                i + m <= n,
                j <= m,
                matched ==> forall|k: int| 0 <= k < j ==> s@[i + k] == pattern@[k],
                !matched ==> !spec_occurs_at(s@, pattern@, i as int),
            decreases m - j,
        {
            if matched && s.get_char(i + j) != pattern.get_char(j) {
                matched = false;
                assert(s@.subrange(i as int, i + m)[j as int] != pattern@[j as int]);
            }
            j = j + 1;
        }
        if matched {
            assert(s@.subrange(i as int, i + m) =~= pattern@);
            return Some(i);
        }
        i = i + 1;
    }
    None
}

} // verus!
