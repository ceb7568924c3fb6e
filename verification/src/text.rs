//! Characters and strings: the `White_Space` property, the Unicode
//! properties and mappings that std computes, and verified helpers for
//! trimming, searching and comparing.
use vstd::prelude::*;

verus! {

broadcast use vstd::string::group_string_axioms;

/// Whether a character has the Unicode `White_Space` property, as
/// `char::is_whitespace` documents it: U+0009 to U+000D, U+0020, U+0085,
/// U+00A0, U+1680, U+2000 to U+200A, U+2028, U+2029, U+202F, U+205F and
/// U+3000.
pub open spec fn char_is_whitespace(c: char) -> bool {
    let n = c as u32;
    (0x9 <= n <= 0xd) || n == 0x20 || n == 0x85 || n == 0xa0 || n == 0x1680 || (0x2000 <= n
        <= 0x200a) || n == 0x2028 || n == 0x2029 || n == 0x202f || n == 0x205f || n == 0x3000
}

/// Whether a character has the `White_Space` property.
pub(crate) fn is_whitespace(c: char) -> (r: bool)
    ensures
        r == char_is_whitespace(c),
{
    let n = c as u32;
    (0x9 <= n && n <= 0xd) || n == 0x20 || n == 0x85 || n == 0xa0 || n == 0x1680 || (0x2000 <= n
        && n <= 0x200a) || n == 0x2028 || n == 0x2029 || n == 0x202f || n == 0x205f || n == 0x3000
}

/// Whether `char::is_alphabetic` holds of a character (the Unicode
/// `Alphabetic` property).
pub uninterp spec fn char_is_alphabetic(c: char) -> bool;

/// Calls `char::is_alphabetic`; the result is the named property of `c`.
#[verifier::external_body]
pub(crate) fn is_alphabetic(c: char) -> (r: bool)
    ensures
        r == char_is_alphabetic(c),
{
    c.is_alphabetic()
}

/// Whether `char::is_alphanumeric` holds of a character (the Unicode
/// `Alphabetic` property or a numeric general category).
pub uninterp spec fn char_is_alphanumeric(c: char) -> bool;

/// Calls `char::is_alphanumeric`; the result is the named property of `c`.
#[verifier::external_body]
pub(crate) fn is_alphanumeric(c: char) -> (r: bool)
    ensures
        r == char_is_alphanumeric(c),
{
    c.is_alphanumeric()
}

/// Whether a number is a Unicode scalar value: at most `0x10FFFF` and not
/// a surrogate.
pub open spec fn is_scalar_value(code: u32) -> bool {
    code <= 0x10FFFF && !(0xD800 <= code <= 0xDFFF)
}

/// The character with a code point, if there is one.
pub open spec fn char_with_code(code: u32) -> Option<char> {
    if is_scalar_value(code) {
        Some(code as char)
    } else {
        None
    }
}

/// Calls `char::from_u32`, which documents `None` for surrogates and for
/// values above `0x10FFFF` and the character with that code otherwise.
#[verifier::external_body]
pub(crate) fn char_from_u32(code: u32) -> (r: Option<char>)
    ensures
        r == char_with_code(code),
{
    char::from_u32(code)
}

/// The lowercase mapping of a string (`str::to_lowercase`), a function of
/// its characters given by the Unicode tables.
pub uninterp spec fn lowercase(s: Seq<char>) -> Seq<char>;

/// Calls `str::to_lowercase`; the result is the named mapping of `s`.
#[verifier::external_body]
pub(crate) fn to_lowercase(s: &str) -> (r: String)
    ensures
        r@ == lowercase(s@),
{
    s.to_lowercase()
}

/// The uppercase mapping of one character (`char::to_uppercase`), which
/// may be several characters.
pub uninterp spec fn char_upper(c: char) -> Seq<char>;

/// Collects `char::to_uppercase` into a `String`; the result is the named
/// mapping of `c`.
#[verifier::external_body]
pub(crate) fn to_uppercase_char(c: char) -> (r: String)
    ensures
        r@ == char_upper(c),
{
    c.to_uppercase().collect::<String>()
}

/// Builds a `String` from characters with `String::from_iter`; the string
/// holds exactly those characters, in order.
#[verifier::external_body]
pub(crate) fn string_of(chars: &Vec<char>) -> (s: String)
    ensures
        s@ == chars@,
{
    String::from_iter(chars)
}

/// The characters of a string slice, in order.
pub fn chars_of(s: &str) -> (v: Vec<char>)
    ensures
        v@ == s@,
{
    let mut v: Vec<char> = Vec::new();
    for c in it: s.chars()
        invariant
            v@ == it.seq().take(it.index() as int),
    {
        v.push(c);
    }
    v
}

/// Whether two strings hold the same characters.
pub fn str_eq(a: &str, b: &str) -> (r: bool)
    ensures
        r == (a@ == b@),
{
    let x = chars_of(a);
    let y = chars_of(b);
    if x.len() != y.len() {
        return false;
    }
    let mut i: usize = 0;
    while i < x.len()
        invariant
            i <= x.len(),
            x.len() == y.len(),
            x@ == a@,
            y@ == b@,
            x@.take(i as int) == y@.take(i as int),
        decreases x.len() - i,
    {
        if x[i] != y[i] {
            return false;
        }
        assert(x@.take(i + 1) =~= x@.take(i as int).push(x@[i as int]));
        assert(y@.take(i + 1) =~= y@.take(i as int).push(y@[i as int]));
        i += 1;
    }
    assert(x@ =~= x@.take(i as int));
    assert(y@ =~= y@.take(i as int));
    true
}

/// `s` without its leading and trailing whitespace, as `str::trim`.
pub open spec fn trimmed(s: Seq<char>) -> Seq<char> {
    s.subrange(trim_start(s), trim_end(s))
}

/// The first position that is not whitespace, or the length.
pub open spec fn trim_start(s: Seq<char>) -> int {
    if exists|i: int| 0 <= i < s.len() && !char_is_whitespace(#[trigger] s[i]) {
        choose|i: int|
            0 <= i < s.len() && !char_is_whitespace(s[i]) && forall|j: int|
                0 <= j < i ==> char_is_whitespace(#[trigger] s[j])
    } else {
        s.len() as int
    }
}

/// One past the last position that is not whitespace, at least the start.
pub open spec fn trim_end(s: Seq<char>) -> int {
    if exists|i: int| 0 <= i < s.len() && !char_is_whitespace(#[trigger] s[i]) {
        1 + choose|i: int|
            0 <= i < s.len() && !char_is_whitespace(s[i]) && forall|j: int|
                i < j < s.len() ==> char_is_whitespace(#[trigger] s[j])
    } else {
        s.len() as int
    }
}

/// The characters of `s` without leading and trailing whitespace.
pub fn trim_chars(s: &Vec<char>) -> (r: Vec<char>)
    ensures
        r@ == trimmed(s@),
{
    let mut a: usize = 0;
    while a < s.len() && is_whitespace(s[a])
        invariant
            a <= s.len(),
            forall|j: int| 0 <= j < a ==> char_is_whitespace(#[trigger] s@[j]),
        decreases s.len() - a,
    {
        a += 1;
    }
    let mut b: usize = s.len();
    while b > a && is_whitespace(s[b - 1])
        invariant
            a <= b <= s.len(),
            forall|j: int| b <= j < s.len() ==> char_is_whitespace(#[trigger] s@[j]),
        decreases b,
    {
        b -= 1;
    }
    proof {
        if a < s.len() {
            assert(!char_is_whitespace(s@[a as int]));
            let i = trim_start(s@);
            assert(i == a) by {
                if i < a {
                    assert(char_is_whitespace(s@[i]));
                } else if i > a {
                    assert(char_is_whitespace(s@[a as int]));
                }
            }
            assert(b > a);
            assert(!char_is_whitespace(s@[b - 1]));
            let k = trim_end(s@) - 1;
            assert(k == b - 1) by {
                if k < b - 1 {
                    assert(char_is_whitespace(s@[b - 1]));
                } else if k > b - 1 {
                    assert(char_is_whitespace(s@[k]));
                }
            }
        } else {
            assert(trimmed(s@) =~= Seq::<char>::empty());
        }
    }
    let mut r: Vec<char> = Vec::new();
    let mut i = a;
    while i < b
        invariant
            a <= i <= b <= s.len(),
            r@ == s@.subrange(a as int, i as int),
        decreases b - i,
    {
        r.push(s[i]);
        assert(r@ =~= s@.subrange(a as int, i + 1));
        i += 1;
    }
    r
}

/// Whether `needle` occurs in `hay`.
pub open spec fn contains_seq(hay: Seq<char>, needle: Seq<char>) -> bool {
    exists|i: int| 0 <= i <= hay.len() - needle.len() && #[trigger] hay.subrange(i, i + needle.len()) == needle
}

/// Whether `needle` occurs in `hay`, as `str::contains`.
pub fn contains_chars(hay: &Vec<char>, needle: &Vec<char>) -> (r: bool)
    ensures
        r == contains_seq(hay@, needle@),
{
    if needle.len() > hay.len() {
        return false;
    }
    let last = hay.len() - needle.len();
    let mut i: usize = 0;
    while i <= last
        invariant
            last == hay.len() - needle.len(),
            i <= last + 1,
            forall|k: int| 0 <= k < i ==> #[trigger] hay@.subrange(k, k + needle.len()) != needle@,
        decreases last + 1 - i,
    {
        let mut j: usize = 0;
        while j < needle.len() && hay[i + j] == needle[j]
            invariant
                j <= needle.len(),
                i <= last,
                last == hay.len() - needle.len(),
                forall|m: int| 0 <= m < j ==> hay@[i + m] == needle@[m],
            decreases needle.len() - j,
        {
            j += 1;
        }
        if j == needle.len() {
            assert(hay@.subrange(i as int, i + needle.len()) =~= needle@);
            return true;
        }
        assert(hay@.subrange(i as int, i + needle.len())[j as int] != needle@[j as int]);
        i += 1;
    }
    proof {
        assert forall|k: int| 0 <= k <= hay.len() - needle.len() implies #[trigger] hay@.subrange(
            k,
            k + needle.len(),
        ) != needle@ by {
            assert(k < i);
        }
    }
    false
}

/// Whether `s` begins with `prefix`, as `str::starts_with`.
pub fn starts_with_str(s: &str, prefix: &str) -> (r: bool)
    ensures
        r == prefix@.is_prefix_of(s@),
{
    let a = chars_of(s);
    let p = chars_of(prefix);
    if p.len() > a.len() {
        return false;
    }
    let mut i: usize = 0;
    while i < p.len()
        invariant
            i <= p.len() <= a.len(),
            a@ == s@,
            p@ == prefix@,
            forall|k: int| 0 <= k < i ==> a@[k] == p@[k],
        decreases p.len() - i,
    {
        if a[i] != p[i] {
            assert(a@.subrange(0, p.len() as int)[i as int] != p@[i as int]);
            return false;
        }
        i += 1;
    }
    assert(p@ =~= a@.subrange(0, p.len() as int));
    true
}

/// Whether `needle` occurs in `hay`, as `str::contains`.
pub fn contains_str(hay: &str, needle: &str) -> (r: bool)
    ensures
        r == contains_seq(hay@, needle@),
{
    let h = chars_of(hay);
    let n = chars_of(needle);
    contains_chars(&h, &n)
}

} // verus!
