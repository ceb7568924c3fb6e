//! The lexical layer of the expression evaluator: whitespace, identifiers,
//! string literals with their escapes, and the shape of numeric literals.
//! What the evaluator computes from them (JavaScript numbers) lies outside.
use vstd::prelude::*;

use crate::sim::regex::{digit_run_end, is_digit, peek_at};
use crate::text::{
    char_from_u32,
    char_is_alphabetic,
    char_is_alphanumeric,
    char_is_whitespace,
    char_with_code,
    chars_of,
    is_alphabetic,
    is_alphanumeric,
    is_whitespace,
    string_of,
};

verus! {

// ---------------------------------------------------------------------
// Characters

/// The value of `c` as a digit in `radix`, as `char::to_digit` defines it:
/// `0-9`, then `a-z` or `A-Z` for 10 to 35, when below the radix.
pub open spec fn digit_value_in(c: char, radix: u32) -> Option<u32> {
    let n = c as u32;
    let v: int = if 48 <= n <= 57 {
        n - 48
    } else if 97 <= n <= 122 {
        n - 87
    } else if 65 <= n <= 90 {
        n - 55
    } else {
        99
    };
    if v < radix {
        Some(v as u32)
    } else {
        None
    }
}

/// The value of `c` as a digit in `radix`.
pub fn to_digit(c: char, radix: u32) -> (r: Option<u32>)
    requires
        2 <= radix <= 36,
    ensures
        r == digit_value_in(c, radix),
{
    let n = c as u32;
    let v: u32 = if 48 <= n && n <= 57 {
        n - 48
    } else if 97 <= n && n <= 122 {
        n - 87
    } else if 65 <= n && n <= 90 {
        n - 55
    } else {
        99
    };
    if v < radix {
        Some(v)
    } else {
        None
    }
}

pub open spec fn ident_start(c: char) -> bool {
    char_is_alphabetic(c) || c == '_' || c == '$'
}

pub open spec fn ident_char(c: char) -> bool {
    char_is_alphanumeric(c) || c == '_' || c == '$'
}

/// Whether an identifier may start with `c`: a letter, `_` or `$`.
pub fn is_ident_start(c: char) -> (r: bool)
    ensures
        r == ident_start(c),
{
    is_alphabetic(c) || c == '_' || c == '$'
}

/// Whether an identifier may go on with `c`: a letter, a digit, `_` or `$`.
pub fn is_ident_char(c: char) -> (r: bool)
    ensures
        r == ident_char(c),
{
    is_alphanumeric(c) || c == '_' || c == '$'
}

// ---------------------------------------------------------------------
// Decimal literals

/// Whether `s` is a whole decimal literal: digits with an optional
/// fraction, at least one digit in all, then an optional exponent with at
/// least one digit.
pub open spec fn decimal_valid(s: Seq<char>) -> bool {
    let a = digit_run_end(s, 0);
    let has_dot = a < s.len() && s[a] == '.';
    let b = if has_dot {
        digit_run_end(s, a + 1)
    } else {
        a
    };
    let mantissa = if has_dot {
        a + (b - a - 1)
    } else {
        a
    };
    if mantissa == 0 {
        false
    } else if b < s.len() && (s[b] == 'e' || s[b] == 'E') {
        let c = if b + 1 < s.len() && (s[b + 1] == '+' || s[b + 1] == '-') {
            b + 2
        } else {
            b + 1
        };
        let d = digit_run_end(s, c);
        d > c && d == s.len()
    } else {
        b == s.len()
    }
}

proof fn lemma_digit_run(s: Seq<char>, p: int)
    requires
        0 <= p <= s.len(),
    ensures
        p <= digit_run_end(s, p) <= s.len(),
        forall|i: int| p <= i < digit_run_end(s, p) ==> is_digit(#[trigger] s[i]),
        digit_run_end(s, p) < s.len() ==> !is_digit(s[digit_run_end(s, p)]),
    decreases s.len() - p,
{
    if p < s.len() && is_digit(s[p]) {
        lemma_digit_run(s, p + 1);
    }
}

/// Skips ASCII digits from `i`; the end of the run.
fn skip_digits(s: &Vec<char>, i: usize) -> (e: usize)
    requires
        i <= s.len(),
    ensures
        e == digit_run_end(s@, i as int),
{
    let mut e = i;
    proof {
        lemma_digit_run(s@, i as int);
    }
    while e < s.len() && is_digit_char(s[e])
        invariant
            i <= e <= s.len(),
            digit_run_end(s@, e as int) == digit_run_end(s@, i as int),
        decreases s.len() - e,
    {
        e += 1;
    }
    e
}

fn is_digit_char(c: char) -> (r: bool)
    ensures
        r == is_digit(c),
{
    '0' <= c && c <= '9'
}

/// Whether `text` is a decimal literal (the part after an optional sign).
pub fn js_decimal_valid(text: &str) -> (r: bool)
    ensures
        r == decimal_valid(text@),
{
    let s = chars_of(text);
    proof {
        lemma_digit_run(s@, 0);
    }
    let a = skip_digits(&s, 0);
    let has_dot = a < s.len() && s[a] == '.';
    let b = if has_dot {
        proof {
            lemma_digit_run(s@, a + 1);
        }
        skip_digits(&s, a + 1)
    } else {
        a
    };
    let mantissa = if has_dot {
        a + (b - a - 1)
    } else {
        a
    };
    if mantissa == 0 {
        return false;
    }
    if b < s.len() && (s[b] == 'e' || s[b] == 'E') {
        let c = if b + 1 < s.len() && (s[b + 1] == '+' || s[b + 1] == '-') {
            b + 2
        } else {
            b + 1
        };
        proof {
            lemma_digit_run(s@, c as int);
        }
        let d = skip_digits(&s, c);
        d > c && d == s.len()
    } else {
        b == s.len()
    }
}

// ---------------------------------------------------------------------
// The cursor and its token grammar

/// A cursor over the characters of an expression.
pub struct ExprParser {
    pub src: Vec<char>,
    pub pos: usize,
}

/// The first position from `p` that is not whitespace.
pub open spec fn ws_end(s: Seq<char>, p: int) -> int
    decreases s.len() - p,
{
    if 0 <= p < s.len() && char_is_whitespace(s[p]) {
        ws_end(s, p + 1)
    } else {
        p
    }
}

/// The first position from `p` that cannot go on an identifier.
pub open spec fn ident_end(s: Seq<char>, p: int) -> int
    decreases s.len() - p,
{
    if 0 <= p < s.len() && ident_char(s[p]) {
        ident_end(s, p + 1)
    } else {
        p
    }
}

/// One more hexadecimal digit on an escape's code, in `u32` arithmetic that
/// wraps.
pub open spec fn next_code(code: u32, d: u32) -> u32 {
    vstd::wrapping::u32_specs::wrapping_add(vstd::wrapping::u32_specs::wrapping_mul(code, 16), d)
}

/// `n` more hexadecimal digits from `p` on `code`: the character they
/// name and the position after them, or `None` and where reading stopped.
pub open spec fn hex_escape(s: Seq<char>, p: int, n: nat, code: u32) -> (Option<char>, int)
    decreases n,
{
    if n == 0 {
        (char_with_code(code), p)
    } else {
        match peek_at(s, p) {
            None => (None, p),
            Some(c) => match digit_value_in(c, 16) {
                None => (None, p),
                Some(d) => hex_escape(s, p + 1, (n - 1) as nat, next_code(code, d)),
            },
        }
    }
}

/// The digits of a `\u{...}` escape from `p` up to the closing brace or
/// the end of the text; at least one digit is needed.
pub open spec fn braced_escape(s: Seq<char>, p: int, code: u32, seen: bool) -> (Option<char>, int)
    decreases s.len() - p,
{
    match peek_at(s, p) {
        None => (
            if seen {
                char_with_code(code)
            } else {
                None
            },
            p,
        ),
        Some(c) => if c == '}' {
            (
                if seen {
                    char_with_code(code)
                } else {
                    None
                },
                p + 1,
            )
        } else {
            match digit_value_in(c, 16) {
                None => (None, p),
                Some(d) => braced_escape(s, p + 1, next_code(code, d), true),
            }
        },
    }
}

/// A `\u` escape whose `u` lies before `p`: `{...}` or four digits.
pub open spec fn unicode_escape(s: Seq<char>, p: int) -> (Option<char>, int) {
    if peek_at(s, p) == Some('{') {
        braced_escape(s, p + 1, 0, false)
    } else {
        hex_escape(s, p, 4, 0)
    }
}

/// The run of digits in `radix` from `p`, single `_` separators allowed
/// between digits: the digits, whether no separator is left dangling, and
/// the position after the run.
pub open spec fn digits_from(s: Seq<char>, p: int, radix: u32, acc: Seq<char>, sep: bool) -> (
    Seq<char>,
    bool,
    int,
)
    decreases s.len() - p,
{
    match peek_at(s, p) {
        Some(c) => if c == '_' && acc.len() > 0 && !sep {
            digits_from(s, p + 1, radix, acc, true)
        } else if digit_value_in(c, radix) is Some {
            digits_from(s, p + 1, radix, acc.push(c), false)
        } else {
            (acc, !sep, p)
        },
        None => (acc, !sep, p),
    }
}

/// The character that a backslash and `e` stand for in a string literal.
pub open spec fn escaped_char(e: char) -> char {
    if e == 'n' {
        '\n'
    } else if e == 't' {
        '\t'
    } else if e == 'r' {
        '\r'
    } else if e == 'b' {
        '\u{08}'
    } else if e == 'f' {
        '\u{0c}'
    } else if e == 'v' {
        '\u{0b}'
    } else if e == '0' {
        '\0'
    } else {
        e
    }
}

/// The rest of a string literal from `p` up to the closing `quote`, its
/// text gathered on `acc`: the text and the position after the quote, or
/// `None` and where reading stopped.
pub open spec fn string_body(s: Seq<char>, p: int, quote: char, acc: Seq<char>) -> (
    Option<Seq<char>>,
    int,
)
    decreases s.len() - p,
{
    match peek_at(s, p) {
        None => (None, p),
        Some(c) => if c == quote {
            (Some(acc), p + 1)
        } else if c == '\\' {
            match peek_at(s, p + 1) {
                None => (None, p + 1),
                Some(e) => {
                    let q = p + 2;
                    if e == 'u' || e == 'x' {
                        let (r, q2) = if e == 'u' {
                            unicode_escape(s, q)
                        } else {
                            hex_escape(s, q, 2, 0)
                        };
                        match r {
                            None => (None, q2),
                            Some(ch) => if p < q2 <= s.len() {
                                string_body(s, q2, quote, acc.push(ch))
                            } else {
                                (None, q2)
                            },
                        }
                    } else if e == '\n' {
                        string_body(s, q, quote, acc)
                    } else {
                        string_body(s, q, quote, acc.push(escaped_char(e)))
                    }
                },
            }
        } else {
            string_body(s, p + 1, quote, acc.push(c))
        },
    }
}

/// The letter that writes a control character in a JavaScript escape:
/// `n` for a line feed, `t` for a tab, `r` for a carriage return, `b` for
/// a backspace, `f` for a form feed, `v` for a vertical tab and `0` for
/// NUL.
pub open spec fn escape_letter(c: char) -> Option<char> {
    if c == '\n' {
        Some('n')
    } else if c == '\t' {
        Some('t')
    } else if c == '\r' {
        Some('r')
    } else if c == '\u{08}' {
        Some('b')
    } else if c == '\u{0c}' {
        Some('f')
    } else if c == '\u{0b}' {
        Some('v')
    } else if c == '\0' {
        Some('0')
    } else {
        None
    }
}

/// The body of a string literal that holds `t` between `quote`s: each
/// `quote` and each backslash of `t` escaped by a backslash, each control
/// character that has a letter written as a backslash and that letter,
/// every other character as it is.
pub open spec fn quoted_body(t: Seq<char>, quote: char) -> Seq<char>
    decreases t.len(),
{
    if t.len() == 0 {
        Seq::empty()
    } else {
        let c = t[0];
        let head = if c == quote || c == '\\' {
            seq!['\\', c]
        } else if escape_letter(c) is Some {
            seq!['\\', escape_letter(c)->0]
        } else {
            seq![c]
        };
        head + quoted_body(t.drop_first(), quote)
    }
}

proof fn lemma_read_quoted(s: Seq<char>, p: int, quote: char, acc: Seq<char>, t: Seq<char>)
    requires
        quote == '"' || quote == '\'',
        0 <= p,
        p + quoted_body(t, quote).len() < s.len(),
        s.subrange(p, p + quoted_body(t, quote).len()) == quoted_body(t, quote),
        s[p + quoted_body(t, quote).len()] == quote,
    ensures
        string_body(s, p, quote, acc) == (Some(acc + t), p + quoted_body(t, quote).len() + 1int),
    decreases t.len(),
{
    let b = quoted_body(t, quote);
    if t.len() == 0 {
        assert(acc + t =~= acc);
    } else {
        let c = t[0];
        let rest = quoted_body(t.drop_first(), quote);
        if c == quote || c == '\\' {
            assert(b == seq!['\\', c] + rest);
            assert(s.subrange(p, p + b.len())[0] == s[p]);
            assert(s.subrange(p, p + b.len())[1] == s[p + 1]);
            assert(s.subrange(p + 2, p + 2 + rest.len()) =~= rest) by {
                assert forall|i: int| 0 <= i < rest.len() implies s.subrange(p + 2, p + 2 + rest.len())[i]
                    == rest[i] by {
                    assert(s.subrange(p, p + b.len())[2 + i] == s[p + 2 + i]);
                }
            }
            lemma_read_quoted(s, p + 2, quote, acc.push(c), t.drop_first());
            assert(acc.push(c) + t.drop_first() =~= acc + t);
        } else if escape_letter(c) is Some {
            let l = escape_letter(c)->0;
            assert(b == seq!['\\', l] + rest);
            assert(s.subrange(p, p + b.len())[0] == s[p]);
            assert(s.subrange(p, p + b.len())[1] == s[p + 1]);
            assert(s.subrange(p + 2, p + 2 + rest.len()) =~= rest) by {
                assert forall|i: int| 0 <= i < rest.len() implies s.subrange(p + 2, p + 2 + rest.len())[i]
                    == rest[i] by {
                    assert(s.subrange(p, p + b.len())[2 + i] == s[p + 2 + i]);
                }
            }
            assert(escaped_char(l) == c);
            lemma_read_quoted(s, p + 2, quote, acc.push(c), t.drop_first());
            assert(acc.push(c) + t.drop_first() =~= acc + t);
        } else {
            assert(b == seq![c] + rest);
            assert(s.subrange(p, p + b.len())[0] == s[p]);
            assert(s.subrange(p + 1, p + 1 + rest.len()) =~= rest) by {
                assert forall|i: int| 0 <= i < rest.len() implies s.subrange(p + 1, p + 1 + rest.len())[i]
                    == rest[i] by {
                    assert(s.subrange(p, p + b.len())[1 + i] == s[p + 1 + i]);
                }
            }
            lemma_read_quoted(s, p + 1, quote, acc.push(c), t.drop_first());
            assert(acc.push(c) + t.drop_first() =~= acc + t);
        }
    }
}

/// A backslash before a character that is no control letter, and starts no
/// `\u` or `\x` escape and no line continuation, stands for that character
/// itself: a backslash and a quote is the quote, two backslashes are one.
pub proof fn law_escape_stands_for_itself(quote: char, e: char, rest: Seq<char>)
    requires
        quote == '"' || quote == '\'',
        !(e == 'n' || e == 't' || e == 'r' || e == 'b' || e == 'f' || e == 'v' || e == '0'),
        e != 'u' && e != 'x' && e != '\n',
    ensures
        string_body(seq![quote, '\\', e, quote] + rest, 1, quote, Seq::empty()) == (Some(seq![e]), 4int),
{
    let s = seq![quote, '\\', e, quote] + rest;
    assert(s[1] == '\\' && s[2] == e && s[3] == quote);
    assert(escaped_char(e) == e);
    assert(Seq::<char>::empty().push(e) =~= seq![e]);
    assert(string_body(s, 3, quote, seq![e]) == (Some(seq![e]), 4int));
}

/// A string literal reads back as the text it was written from: a text
/// put between double or single quotes, with its quotes, backslashes and
/// lettered control characters escaped, reads as that text, and reading
/// ends just after the closing quote whatever follows it.
pub proof fn law_quoted_string_reads_back(t: Seq<char>, quote: char, rest: Seq<char>)
    requires
        quote == '"' || quote == '\'',
    ensures
        string_body(seq![quote] + quoted_body(t, quote) + seq![quote] + rest, 1, quote, Seq::empty())
            == (Some(t), quoted_body(t, quote).len() + 2int),
{
    let b = quoted_body(t, quote);
    let s = seq![quote] + b + seq![quote] + rest;
    assert(s.subrange(1, 1 + b.len() as int) =~= b);
    lemma_read_quoted(s, 1, quote, Seq::empty(), t);
    assert(Seq::<char>::empty() + t =~= t);
}

proof fn lemma_hex_escape_end(s: Seq<char>, p: int, n: nat, code: u32)
    requires
        0 <= p <= s.len(),
    ensures
        p <= hex_escape(s, p, n, code).1 <= s.len(),
    decreases n,
{
    if n > 0 {
        if p < s.len() {
            lemma_hex_escape_end(s, p + 1, (n - 1) as nat, next_code(code, digit_value_in(s[p], 16)->0));
        }
    }
}

proof fn lemma_braced_escape_end(s: Seq<char>, p: int, code: u32, seen: bool)
    requires
        0 <= p <= s.len(),
    ensures
        p <= braced_escape(s, p, code, seen).1 <= s.len(),
    decreases s.len() - p,
{
    if p < s.len() && s[p] != '}' {
        if let Some(d) = digit_value_in(s[p], 16) {
            lemma_braced_escape_end(s, p + 1, next_code(code, d), true);
        }
    }
}

impl ExprParser {
    /// Moves past whitespace.
    pub fn skip_ws(&mut self)
        ensures
            final(self).src@ == old(self).src@,
            final(self).pos == ws_end(old(self).src@, old(self).pos as int),
    {
        while self.pos < self.src.len() && is_whitespace(self.src[self.pos])
            invariant
                ws_end(self.src@, self.pos as int) == ws_end(old(self).src@, old(self).pos as int),
                self.src@ == old(self).src@,
            decreases self.src.len() - self.pos,
        {
            self.pos += 1;
        }
    }

    /// The character at the cursor.
    pub fn peek(&self) -> (r: Option<char>)
        ensures
            r == peek_at(self.src@, self.pos as int),
    {
        if self.pos < self.src.len() {
            Some(self.src[self.pos])
        } else {
            None
        }
    }

    /// The character `offset` places after the cursor.
    pub fn peek_at(&self, offset: usize) -> (r: Option<char>)
        ensures
            r == peek_at(self.src@, self.pos + offset),
    {
        if self.pos < self.src.len() && offset < self.src.len() - self.pos {
            Some(self.src[self.pos + offset])
        } else {
            None
        }
    }

    /// Reads `len` hexadecimal digits as a character code.
    pub fn parse_hex_escape(&mut self, len: usize) -> (r: Option<char>)
        ensures
            final(self).src@ == old(self).src@,
            (r, final(self).pos as int) == hex_escape(old(self).src@, old(self).pos as int, len as nat, 0),
    {
        let ghost start = hex_escape(self.src@, self.pos as int, len as nat, 0);
        let mut code: u32 = 0;
        let mut i: usize = 0;
        while i < len
            invariant
                i <= len,
                self.src@ == old(self).src@,
                start == hex_escape(old(self).src@, old(self).pos as int, len as nat, 0),
                start == hex_escape(self.src@, self.pos as int, (len - i) as nat, code),
            decreases len - i,
        {
            let c = match self.peek() {
                Some(c) => c,
                None => {
                    return None;
                },
            };
            let d = match to_digit(c, 16) {
                Some(d) => d,
                None => {
                    return None;
                },
            };
            code = code.wrapping_mul(16).wrapping_add(d);
            assert(self.pos < self.src.len());
            self.pos += 1;
            i += 1;
        }
        char_from_u32(code)
    }

    /// Reads the code of a `\u` escape: `{` hex digits `}` or four digits.
    pub fn parse_unicode_escape(&mut self) -> (r: Option<char>)
        ensures
            final(self).src@ == old(self).src@,
            (r, final(self).pos as int) == unicode_escape(old(self).src@, old(self).pos as int),
    {
        let opens = self.pos < self.src.len() && self.src[self.pos] == '{';
        if opens {
            self.pos += 1;
            let ghost start = braced_escape(self.src@, self.pos as int, 0, false);
            let mut code: u32 = 0;
            let mut seen = false;
            loop
                invariant_except_break
                    start == braced_escape(self.src@, self.pos as int, code, seen),
                invariant
                    self.src@ == old(self).src@,
                    self.pos <= self.src.len(),
                    start == unicode_escape(old(self).src@, old(self).pos as int),
                ensures
                    start == (
                        if seen {
                            char_with_code(code)
                        } else {
                            None
                        },
                        self.pos as int,
                    ),
                decreases self.src.len() - self.pos,
            {
                let c = match self.peek() {
                    Some(c) => c,
                    None => {
                        break;
                    },
                };
                if c == '}' {
                    self.pos += 1;
                    break;
                }
                let d = match to_digit(c, 16) {
                    Some(d) => d,
                    None => {
                        return None;
                    },
                };
                code = code.wrapping_mul(16).wrapping_add(d);
                seen = true;
                self.pos += 1;
            }
            if !seen {
                return None;
            }
            char_from_u32(code)
        } else {
            self.parse_hex_escape(4)
        }
    }

    /// Reads digits in `radix` with single `_` separators between them;
    /// the digits and whether the run did not end on a separator.
    pub fn read_digits(&mut self, radix: u32) -> (r: (String, bool))
        requires
            2 <= radix <= 36,
        ensures
            final(self).src@ == old(self).src@,
            (r.0@, r.1, final(self).pos as int) == digits_from(
                old(self).src@,
                old(self).pos as int,
                radix,
                Seq::empty(),
                false,
            ),
    {
        let ghost start = digits_from(self.src@, self.pos as int, radix, Seq::empty(), false);
        let mut digits: Vec<char> = Vec::new();
        let mut saw_separator = false;
        loop
            invariant
                2 <= radix <= 36,
                self.src@ == old(self).src@,
                start == digits_from(old(self).src@, old(self).pos as int, radix, Seq::empty(), false),
                start == digits_from(self.src@, self.pos as int, radix, digits@, saw_separator),
            ensures
                start == (digits@, !saw_separator, self.pos as int),
                self.src@ == old(self).src@,
            decreases self.src.len() - self.pos,
        {
            match self.peek() {
                Some(c) => {
                    if c == '_' && digits.len() > 0 && !saw_separator {
                        self.pos += 1;
                        saw_separator = true;
                    } else if to_digit(c, radix).is_some() {
                        digits.push(c);
                        self.pos += 1;
                        saw_separator = false;
                    } else {
                        break;
                    }
                },
                None => {
                    break;
                },
            }
        }
        (string_of(&digits), !saw_separator)
    }

    /// Reads an identifier's characters from the cursor.
    pub fn parse_ident(&mut self) -> (r: String)
        requires
            old(self).pos <= old(self).src.len(),
        ensures
            final(self).src@ == old(self).src@,
            final(self).pos == ident_end(old(self).src@, old(self).pos as int),
            r@ == old(self).src@.subrange(old(self).pos as int, final(self).pos as int),
    {
        let start = self.pos;
        let mut out: Vec<char> = Vec::new();
        while self.pos < self.src.len() && is_ident_char(self.src[self.pos])
            invariant
                start <= self.pos <= self.src.len(),
                self.src@ == old(self).src@,
                start == old(self).pos,
                ident_end(self.src@, self.pos as int) == ident_end(old(self).src@, old(self).pos as int),
                out@ == self.src@.subrange(start as int, self.pos as int),
            decreases self.src.len() - self.pos,
        {
            out.push(self.src[self.pos]);
            self.pos += 1;
            assert(out@ =~= self.src@.subrange(start as int, self.pos as int));
        }
        string_of(&out)
    }

    /// Reads a string literal whose opening `quote` is at the cursor.
    pub fn parse_string(&mut self, quote: char) -> (r: Option<String>)
        requires
            old(self).pos < usize::MAX,
        ensures
            final(self).src@ == old(self).src@,
            final(self).pos as int == string_body(old(self).src@, old(self).pos + 1, quote, Seq::empty()).1,
            match string_body(old(self).src@, old(self).pos + 1, quote, Seq::empty()).0 {
                Some(t) => r is Some && r->0@ == t,
                None => r is None,
            },
    {
        self.pos += 1;
        let ghost start = string_body(self.src@, self.pos as int, quote, Seq::empty());
        let mut text: Vec<char> = Vec::new();
        loop
            invariant
                self.src@ == old(self).src@,
                start == string_body(old(self).src@, old(self).pos + 1, quote, Seq::empty()),
                start == string_body(self.src@, self.pos as int, quote, text@),
            decreases self.src.len() - self.pos,
        {
            let current = match self.peek() {
                Some(c) => c,
                None => {
                    return None;
                },
            };
            if current == quote {
                self.pos += 1;
                return Some(string_of(&text));
            }
            if current == '\\' {
                self.pos += 1;
                let escape = match self.peek() {
                    Some(e) => e,
                    None => {
                        return None;
                    },
                };
                self.pos += 1;
                if escape == 'u' || escape == 'x' {
                    let ghost q = self.pos as int;
                    proof {
                        if escape == 'u' {
                            if peek_at(self.src@, q) == Some('{') {
                                lemma_braced_escape_end(self.src@, q + 1, 0, false);
                            } else {
                                lemma_hex_escape_end(self.src@, q, 4, 0);
                            }
                        } else {
                            lemma_hex_escape_end(self.src@, q, 2, 0);
                        }
                    }
                    let decoded = if escape == 'u' {
                        self.parse_unicode_escape()
                    } else {
                        self.parse_hex_escape(2)
                    };
                    match decoded {
                        Some(ch) => text.push(ch),
                        None => {
                            return None;
                        },
                    }
                } else if escape == '\n' {
                } else {
                    let ch = if escape == 'n' {
                        '\n'
                    } else if escape == 't' {
                        '\t'
                    } else if escape == 'r' {
                        '\r'
                    } else if escape == 'b' {
                        '\u{08}'
                    } else if escape == 'f' {
                        '\u{0c}'
                    } else if escape == 'v' {
                        '\u{0b}'
                    } else if escape == '0' {
                        '\0'
                    } else {
                        escape
                    };
                    text.push(ch);
                }
            } else {
                text.push(current);
                self.pos += 1;
            }
        }
    }
}

// ---------------------------------------------------------------------
// Numeric literals

/// The text of a numeric literal, ready for conversion to a number: the
/// digits of a `0x`, `0b` or `0o` literal with their radix, or (radix 10)
/// a decimal literal with its separators dropped and its exponent marker
/// written `e`.
#[derive(Debug)]
pub struct NumberText {
    pub radix: u32,
    pub text: String,
}

/// The radix that the letter after a leading `0` selects, or 0.
pub open spec fn prefix_radix(c: char) -> u32 {
    if c == 'x' || c == 'X' {
        16
    } else if c == 'b' || c == 'B' {
        2
    } else if c == 'o' || c == 'O' {
        8
    } else {
        0
    }
}

/// The exponent of a decimal literal that starts at `p` (at the `e`), on
/// the mantissa `mant` that ends at `p`: the literal's text and its end.
/// An `e` without digits after it is not part of the literal.
pub open spec fn with_exponent(s: Seq<char>, p: int, mant: Seq<char>) -> (Seq<char>, int) {
    if peek_at(s, p) == Some('e') || peek_at(s, p) == Some('E') {
        let signed = peek_at(s, p + 1) == Some('+') || peek_at(s, p + 1) == Some('-');
        let sign = if signed {
            seq![s[p + 1]]
        } else {
            Seq::empty()
        };
        let q = if signed {
            p + 2
        } else {
            p + 1
        };
        let (x, ok, e) = digits_from(s, q, 10, Seq::empty(), false);
        if ok && x.len() > 0 {
            (mant + seq!['e'] + sign + x, e)
        } else {
            (mant, p)
        }
    } else {
        (mant, p)
    }
}

/// The numeric literal that starts at `p`: its radix, its text and the
/// position after it. Leading zeros before further digits are refused, as
/// in strict-mode JavaScript, and so is a separator that ends a run.
pub open spec fn number_literal(s: Seq<char>, p: int) -> Option<(u32, Seq<char>, int)> {
    let zero_then = peek_at(s, p) == Some('0') && peek_at(s, p + 1) is Some;
    if zero_then && prefix_radix(s[p + 1]) != 0 {
        let radix = prefix_radix(s[p + 1]);
        let (d, ok, e) = digits_from(s, p + 2, radix, Seq::empty(), false);
        if !ok || d.len() == 0 {
            None
        } else {
            Some((radix, d, e))
        }
    } else if zero_then && (is_digit(s[p + 1]) || s[p + 1] == '_') {
        None
    } else {
        let (i, iok, e1) = digits_from(s, p, 10, Seq::empty(), false);
        let has_dot = peek_at(s, e1) == Some('.');
        let (f, fok, e2) = if has_dot {
            digits_from(s, e1 + 1, 10, Seq::empty(), false)
        } else {
            (Seq::empty(), true, e1)
        };
        if !iok || !fok || (i.len() == 0 && f.len() == 0) {
            None
        } else {
            let mant = if has_dot {
                i + seq!['.'] + f
            } else {
                i
            };
            let (t, e) = with_exponent(s, e2, mant);
            Some((10, t, e))
        }
    }
}

/// Appends the characters of `extra`.
fn push_chars(out: &mut Vec<char>, extra: &Vec<char>)
    ensures
        final(out)@ == old(out)@ + extra@,
{
    let ghost before = out@;
    let mut k: usize = 0;
    while k < extra.len()
        invariant
            k <= extra.len(),
            out@ == before + extra@.take(k as int),
        decreases extra.len() - k,
    {
        out.push(extra[k]);
        assert(extra@.take(k + 1) =~= extra@.take(k as int).push(extra@[k as int]));
        k += 1;
    }
    assert(extra@.take(k as int) =~= extra@);
}

impl ExprParser {
    /// Reads the exponent of a decimal literal whose mantissa `mant` ends
    /// at the cursor, if there is one with digits; the literal's text.
    fn scan_exponent(&mut self, mant: Vec<char>) -> (r: Vec<char>)
        ensures
            final(self).src@ == old(self).src@,
            (r@, final(self).pos as int) == with_exponent(old(self).src@, old(self).pos as int, mant@),
    {
        let mut text = mant;
        let has_e = self.pos < self.src.len() && (self.src[self.pos] == 'e' || self.src[self.pos]
            == 'E');
        if has_e {
            let save = self.pos;
            self.pos += 1;
            let mut exponent: Vec<char> = Vec::new();
            if self.pos < self.src.len() && (self.src[self.pos] == '+' || self.src[self.pos] == '-') {
                exponent.push(self.src[self.pos]);
                self.pos += 1;
            }
            let (exp_digits, exp_valid) = self.read_digits(10);
            let digits = chars_of(exp_digits.as_str());
            if exp_valid && digits.len() > 0 {
                text.push('e');
                push_chars(&mut text, &exponent);
                push_chars(&mut text, &digits);
                assert(text@ =~= mant@ + seq!['e'] + exponent@ + digits@);
            } else {
                self.pos = save;
            }
        }
        text
    }

    /// Reads the digits of a `0x`, `0b` or `0o` literal after its prefix.
    fn scan_radix_digits(&mut self, radix: u32) -> (r: Option<NumberText>)
        requires
            radix == 2 || radix == 8 || radix == 16,
        ensures
            final(self).src@ == old(self).src@,
            ({
                let (d, ok, e) = digits_from(old(self).src@, old(self).pos as int, radix, Seq::empty(), false);
                if !ok || d.len() == 0 {
                    r is None
                } else {
                    r is Some && r->0.radix == radix && r->0.text@ == d && final(self).pos == e
                }
            }),
    {
        let (digits, valid) = self.read_digits(radix);
        if !valid || digits.as_str().is_empty() {
            return None;
        }
        Some(NumberText { radix, text: digits })
    }

    /// Reads the numeric literal at the cursor (a digit, or a `.` before a
    /// digit) as text.
    #[verifier::rlimit(30)]
    pub fn scan_number(&mut self) -> (r: Option<NumberText>)
        ensures
            final(self).src@ == old(self).src@,
            match number_literal(old(self).src@, old(self).pos as int) {
                Some((radix, t, e)) => r is Some && r->0.radix == radix && r->0.text@ == t
                    && final(self).pos == e,
                None => r is None,
            },
    {
        let zero_then = self.pos < self.src.len() && self.src[self.pos] == '0' && self.src.len()
            - self.pos > 1;
        if zero_then {
            let prefix = self.src[self.pos + 1];
            let radix: u32 = if prefix == 'x' || prefix == 'X' {
                16
            } else if prefix == 'b' || prefix == 'B' {
                2
            } else if prefix == 'o' || prefix == 'O' {
                8
            } else {
                0
            };
            if radix != 0 {
                self.pos += 2;
                return self.scan_radix_digits(radix);
            }
            if ('0' <= prefix && prefix <= '9') || prefix == '_' {
                return None;
            }
        }
        let (int_digits, int_valid) = self.read_digits(10);
        if !int_valid {
            return None;
        }
        let mut text: Vec<char> = chars_of(int_digits.as_str());
        let mut has_digit = text.len() > 0;
        let has_dot = self.pos < self.src.len() && self.src[self.pos] == '.';
        if has_dot {
            self.pos += 1;
            let (frac_digits, frac_valid) = self.read_digits(10);
            if !frac_valid {
                return None;
            }
            let frac = chars_of(frac_digits.as_str());
            if frac.len() > 0 {
                has_digit = true;
            }
            text.push('.');
            push_chars(&mut text, &frac);
        }
        if !has_digit {
            return None;
        }
        let text = self.scan_exponent(text);
        Some(NumberText { radix: 10, text: string_of(&text) })
    }
}

} // verus!
