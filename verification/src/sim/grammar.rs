//! The grammar of plan expressions: precedence, unary and postfix
//! operators, literals and keywords. An expression is read into its
//! operations in postfix order, which the evaluator runs over a stack of
//! JavaScript values; a text that does not read has no operations.
use vstd::prelude::*;

use crate::sim::expr::{
    digits_from, ident_end, ident_start, is_ident_start, number_literal, string_body, with_exponent, ws_end,
    ExprParser, NumberText,
};
use crate::text::{chars_of, str_eq};
use crate::sim::regex::{is_digit, peek_at};

verus! {

/// The keywords that stand for values.
#[derive(Clone, Copy, Debug, PartialEq, Eq, Structural)]
pub enum Keyword {
    True,
    False,
    Null,
    Undefined,
    NaN,
    Infinity,
}

/// The binary operators, from `||` (loosest) to `*`, `/`, `%` and `**`.
#[derive(Clone, Copy, Debug, PartialEq, Eq, Structural)]
pub enum BinaryOp {
    Or,
    And,
    StrictEq,
    StrictNe,
    LooseEq,
    LooseNe,
    Le,
    Ge,
    Lt,
    Gt,
    Add,
    Sub,
    Pow,
    Mul,
    Div,
    Rem,
}

/// One operation of an expression in postfix order: push a literal or a
/// keyword's value, gather the last `n` values into an array, apply a
/// unary operator (`+`, `-`, `!`) or a binary one to the last values, or
/// index the value before last by the last.
#[derive(Debug)]
pub enum ExprOp {
    Number(NumberText),
    Text(String),
    Keyword(Keyword),
    Array(usize),
    Plus,
    Neg,
    Not,
    Binary(BinaryOp),
    Index,
}

/// An operation as plain values.
pub enum OpModel {
    Number(u32, Seq<char>),
    Text(Seq<char>),
    Keyword(Keyword),
    Array(nat),
    Plus,
    Neg,
    Not,
    Binary(BinaryOp),
    Index,
}

/// An operation as plain values.
pub open spec fn op_view(o: ExprOp) -> OpModel {
    match o {
        ExprOp::Number(n) => OpModel::Number(n.radix, n.text@),
        ExprOp::Text(t) => OpModel::Text(t@),
        ExprOp::Keyword(k) => OpModel::Keyword(k),
        ExprOp::Array(n) => OpModel::Array(n as nat),
        ExprOp::Plus => OpModel::Plus,
        ExprOp::Neg => OpModel::Neg,
        ExprOp::Not => OpModel::Not,
        ExprOp::Binary(b) => OpModel::Binary(b),
        ExprOp::Index => OpModel::Index,
    }
}

/// Operations as plain values.
pub open spec fn ops_view(v: Seq<ExprOp>) -> Seq<OpModel> {
    Seq::new(v.len(), |i: int| op_view(v[i]))
}

/// The keyword an identifier is, if any.
pub open spec fn keyword_of(ident: Seq<char>) -> Option<Keyword> {
    if ident == "true"@ {
        Some(Keyword::True)
    } else if ident == "false"@ {
        Some(Keyword::False)
    } else if ident == "null"@ {
        Some(Keyword::Null)
    } else if ident == "undefined"@ {
        Some(Keyword::Undefined)
    } else if ident == "NaN"@ {
        Some(Keyword::NaN)
    } else if ident == "Infinity"@ {
        Some(Keyword::Infinity)
    } else {
        None
    }
}

/// Whether `s` holds `c` at `p`.
pub open spec fn at(s: Seq<char>, p: int, c: char) -> bool {
    peek_at(s, p) == Some(c)
}

/// The binary operator of level `lvl` at `p` and its length, if any:
/// level 8 `||`; 7 `&&`; 6 `===`, `!==`, `==`, `!=`; 5 `<=`, `>=`, `<`,
/// `>`; 4 `+`, `-`; 3 `**`, `*`, `/`, `%`.
pub open spec fn binary_op_at(s: Seq<char>, p: int, lvl: nat) -> Option<(BinaryOp, int)> {
    if lvl == 8 {
        if at(s, p, '|') && at(s, p + 1, '|') { Some((BinaryOp::Or, 2)) } else { None }
    } else if lvl == 7 {
        if at(s, p, '&') && at(s, p + 1, '&') { Some((BinaryOp::And, 2)) } else { None }
    } else if lvl == 6 {
        if at(s, p, '=') && at(s, p + 1, '=') && at(s, p + 2, '=') {
            Some((BinaryOp::StrictEq, 3))
        } else if at(s, p, '!') && at(s, p + 1, '=') && at(s, p + 2, '=') {
            Some((BinaryOp::StrictNe, 3))
        } else if at(s, p, '=') && at(s, p + 1, '=') {
            Some((BinaryOp::LooseEq, 2))
        } else if at(s, p, '!') && at(s, p + 1, '=') {
            Some((BinaryOp::LooseNe, 2))
        } else {
            None
        }
    } else if lvl == 5 {
        if at(s, p, '<') && at(s, p + 1, '=') {
            Some((BinaryOp::Le, 2))
        } else if at(s, p, '>') && at(s, p + 1, '=') {
            Some((BinaryOp::Ge, 2))
        } else if at(s, p, '<') {
            Some((BinaryOp::Lt, 1))
        } else if at(s, p, '>') {
            Some((BinaryOp::Gt, 1))
        } else {
            None
        }
    } else if lvl == 4 {
        if at(s, p, '+') {
            Some((BinaryOp::Add, 1))
        } else if at(s, p, '-') {
            Some((BinaryOp::Sub, 1))
        } else {
            None
        }
    } else if lvl == 3 {
        if at(s, p, '*') && at(s, p + 1, '*') {
            Some((BinaryOp::Pow, 2))
        } else if at(s, p, '*') {
            Some((BinaryOp::Mul, 1))
        } else if at(s, p, '/') {
            Some((BinaryOp::Div, 1))
        } else if at(s, p, '%') {
            Some((BinaryOp::Rem, 1))
        } else {
            None
        }
    } else {
        None
    }
}

pub proof fn lemma_ws_end(s: Seq<char>, p: int)
    requires
        0 <= p <= s.len(),
    ensures
        p <= ws_end(s, p) <= s.len(),
    decreases s.len() - p,
{
    if p < s.len() {
        lemma_ws_end(s, p + 1);
    }
}

/// An expression of level `lvl` from `p` (8 `||`, 7 `&&`, 6 equality,
/// 5 comparison, 4 `+ -`, 3 `* / % **`, 2 unary, 1 postfix, 0 primary):
/// its operations and the position after it.
pub open spec fn level_from(s: Seq<char>, p: int, lvl: nat) -> Option<(Seq<OpModel>, int)>
    decreases s.len() - p, 2 * lvl + 1,
{
    if p < 0 || p > s.len() || lvl > 8 {
        None
    } else if lvl >= 3 {
        match level_from(s, p, (lvl - 1) as nat) {
            Some((left, q)) => if p <= q <= s.len() {
                binary_rest(s, q, lvl, left)
            } else {
                None
            },
            None => None,
        }
    } else if lvl == 2 {
        let r = ws_end(s, p);
        proof {
            lemma_ws_end(s, p);
        }
        if at(s, r, '+') || at(s, r, '-') || (at(s, r, '!') && !at(s, r + 1, '=')) {
            let op = if at(s, r, '+') {
                OpModel::Plus
            } else if at(s, r, '-') {
                OpModel::Neg
            } else {
                OpModel::Not
            };
            match level_from(s, r + 1, 2) {
                Some((e, q)) => Some((e.push(op), q)),
                None => None,
            }
        } else {
            level_from(s, p, 1)
        }
    } else if lvl == 1 {
        match level_from(s, p, 0) {
            Some((e, q)) => if p <= q <= s.len() {
                postfix_rest(s, q, e)
            } else {
                None
            },
            None => None,
        }
    } else {
        primary_from(s, p)
    }
}

/// After an operand of level `lvl` ending at `q` with operations `left`:
/// each further operator of that level and its right operand.
pub open spec fn binary_rest(s: Seq<char>, q: int, lvl: nat, left: Seq<OpModel>) -> Option<(Seq<OpModel>, int)>
    decreases s.len() - q, 2 * lvl,
{
    if q < 0 || q > s.len() || lvl < 3 || lvl > 8 {
        None
    } else {
        let r = ws_end(s, q);
        proof {
            lemma_ws_end(s, q);
        }
        match binary_op_at(s, r, lvl) {
            Some((op, k)) => if r + k <= s.len() {
                match level_from(s, r + k, (lvl - 1) as nat) {
                    Some((right, q2)) => if q < q2 <= s.len() {
                        binary_rest(s, q2, lvl, left + right.push(OpModel::Binary(op)))
                    } else {
                        None
                    },
                    None => None,
                }
            } else {
                None
            },
            None => Some((left, q)),
        }
    }
}

/// After a primary ending at `q` with operations `e`: each `[index]`.
pub open spec fn postfix_rest(s: Seq<char>, q: int, e: Seq<OpModel>) -> Option<(Seq<OpModel>, int)>
    decreases s.len() - q, 2nat,
{
    if q < 0 || q > s.len() {
        None
    } else {
        let r = ws_end(s, q);
        proof {
            lemma_ws_end(s, q);
        }
        if at(s, r, '[') {
            match level_from(s, r + 1, 8) {
                Some((index, q2)) => {
                    let r2 = ws_end(s, q2);
                    if q < q2 <= s.len() && at(s, r2, ']') {
                        proof {
                            lemma_ws_end(s, q2);
                        }
                        postfix_rest(s, r2 + 1, e + index.push(OpModel::Index))
                    } else {
                        None
                    }
                },
                None => None,
            }
        } else {
            Some((e, q))
        }
    }
}

/// The items of an array literal from `p` (after `[` or a `,`), `n` items
/// with operations `acc` read before.
pub open spec fn array_items(s: Seq<char>, p: int, acc: Seq<OpModel>, n: nat) -> Option<(Seq<OpModel>, int)>
    decreases s.len() - p, 20nat,
{
    if p < 0 || p > s.len() {
        None
    } else {
        match level_from(s, p, 8) {
            Some((item, q)) => {
                let r = ws_end(s, q);
                if p < q <= s.len() {
                    proof {
                        lemma_ws_end(s, q);
                    }
                    if at(s, r, ',') {
                        array_items(s, r + 1, acc + item, n + 1)
                    } else if at(s, r, ']') {
                        Some((acc + item.push(OpModel::Array(n + 1)), r + 1))
                    } else {
                        None
                    }
                } else {
                    None
                }
            },
            None => None,
        }
    }
}

/// A primary expression from `p`: a parenthesised expression, an array
/// literal, a string, a number, or a keyword.
pub open spec fn primary_from(s: Seq<char>, p: int) -> Option<(Seq<OpModel>, int)>
    decreases s.len() - p, 0nat,
{
    if p < 0 || p > s.len() {
        None
    } else {
        let r = ws_end(s, p);
        proof {
            lemma_ws_end(s, p);
        }
        if r >= s.len() {
            None
        } else if s[r] == '(' {
            match level_from(s, r + 1, 8) {
                Some((e, q)) => if r < q <= s.len() && at(s, ws_end(s, q), ')') {
                    Some((e, ws_end(s, q) + 1))
                } else {
                    None
                },
                None => None,
            }
        } else if s[r] == '[' {
            let r1 = ws_end(s, r + 1);
            if at(s, r1, ']') {
                Some((seq![OpModel::Array(0)], r1 + 1))
            } else {
                array_items(s, r + 1, Seq::empty(), 0)
            }
        } else if s[r] == '"' || s[r] == '\'' {
            match string_body(s, r + 1, s[r], Seq::empty()) {
                (Some(t), e) => Some((seq![OpModel::Text(t)], e)),
                (None, _) => None,
            }
        } else if is_digit(s[r]) || (s[r] == '.' && r + 1 < s.len() && is_digit(s[r + 1])) {
            match number_literal(s, r) {
                Some((radix, t, e)) => Some((seq![OpModel::Number(radix, t)], e)),
                None => None,
            }
        } else if ident_start(s[r]) {
            match keyword_of(s.subrange(r, ident_end(s, r))) {
                Some(k) => Some((seq![OpModel::Keyword(k)], ident_end(s, r))),
                None => None,
            }
        } else {
            None
        }
    }
}

/// The operations of a whole expression text, if it reads: an expression,
/// then nothing but whitespace.
pub open spec fn expr_of(s: Seq<char>) -> Option<Seq<OpModel>> {
    match level_from(s, 0, 8) {
        Some((ops, q)) => if 0 <= q <= s.len() && ws_end(s, q) == s.len() {
            Some(ops)
        } else {
            None
        },
        None => None,
    }
}

/// The symbol of a binary operator in expression text.
pub open spec fn op_symbol(op: BinaryOp) -> Seq<char> {
    match op {
        BinaryOp::Or => seq!['|', '|'],
        BinaryOp::And => seq!['&', '&'],
        BinaryOp::StrictEq => seq!['=', '=', '='],
        BinaryOp::StrictNe => seq!['!', '=', '='],
        BinaryOp::LooseEq => seq!['=', '='],
        BinaryOp::LooseNe => seq!['!', '='],
        BinaryOp::Le => seq!['<', '='],
        BinaryOp::Ge => seq!['>', '='],
        BinaryOp::Lt => seq!['<'],
        BinaryOp::Gt => seq!['>'],
        BinaryOp::Add => seq!['+'],
        BinaryOp::Sub => seq!['-'],
        BinaryOp::Pow => seq!['*', '*'],
        BinaryOp::Mul => seq!['*'],
        BinaryOp::Div => seq!['/'],
        BinaryOp::Rem => seq!['%'],
    }
}

/// The precedence level of a binary operator: 8 for `||` down to 3 for
/// `*`, `/`, `%` and `**`.
pub open spec fn op_level(op: BinaryOp) -> nat {
    match op {
        BinaryOp::Or => 8,
        BinaryOp::And => 7,
        BinaryOp::StrictEq | BinaryOp::StrictNe | BinaryOp::LooseEq | BinaryOp::LooseNe => 6,
        BinaryOp::Le | BinaryOp::Ge | BinaryOp::Lt | BinaryOp::Gt => 5,
        BinaryOp::Add | BinaryOp::Sub => 4,
        BinaryOp::Pow | BinaryOp::Mul | BinaryOp::Div | BinaryOp::Rem => 3,
    }
}

/// The operator read at a position is the one whose symbol stands there,
/// and it is read at its own precedence level.
pub proof fn law_binary_op_symbol(s: Seq<char>, p: int, lvl: nat)
    requires
        binary_op_at(s, p, lvl) is Some,
    ensures
        ({
            let (op, k) = binary_op_at(s, p, lvl)->0;
            &&& 0 <= p
            &&& p + k <= s.len()
            &&& s.subrange(p, p + k) == op_symbol(op)
            &&& op_level(op) == lvl
        }),
{
    let (op, k) = binary_op_at(s, p, lvl)->0;
    assert(s.subrange(p, p + k) =~= op_symbol(op));
}

/// Whether `c` can begin a binary operator.
pub open spec fn operator_char(c: char) -> bool {
    c == '|' || c == '&' || c == '=' || c == '!' || c == '<' || c == '>' || c == '+' || c == '-' || c == '*'
        || c == '/' || c == '%'
}

/// A digit alone, followed by the end or by an operator, is read at the
/// primary, postfix and unary levels as the decimal number it writes.
proof fn lemma_digit_operand(s: Seq<char>, p: int)
    requires
        0 <= p < s.len(),
        is_digit(s[p]),
        p + 1 == s.len() || operator_char(s[p + 1]),
    ensures
        level_from(s, p, 0) == Some((seq![OpModel::Number(10, seq![s[p]])], p + 1)),
        level_from(s, p, 1) == Some((seq![OpModel::Number(10, seq![s[p]])], p + 1)),
        level_from(s, p, 2) == Some((seq![OpModel::Number(10, seq![s[p]])], p + 1)),
{
    let e = seq![OpModel::Number(10, seq![s[p]])];
    assert(ws_end(s, p) == p);
    assert(ws_end(s, p + 1) == p + 1);
    lemma_ws_end(s, p + 1);
    let d0 = digits_from(s, p + 1, 10, seq![s[p]], false);
    assert(d0 == (seq![s[p]], true, p + 1));
    assert(Seq::<char>::empty().push(s[p]) =~= seq![s[p]]);
    assert(digits_from(s, p, 10, Seq::empty(), false) == d0);
    assert(with_exponent(s, p + 1, seq![s[p]]) == (seq![s[p]], p + 1));
    assert(number_literal(s, p) == Some((10u32, seq![s[p]], p + 1)));
    assert(primary_from(s, p) == Some((e, p + 1)));
    assert(postfix_rest(s, p + 1, e) == Some((e, p + 1)));
}

/// An operand of level `lvl - 1` that no operator of level `lvl` follows is
/// the whole operand of level `lvl`.
proof fn lemma_level_up(s: Seq<char>, p: int, lvl: nat, ops: Seq<OpModel>, q: int)
    requires
        3 <= lvl <= 8,
        0 <= p <= q <= s.len(),
        level_from(s, p, (lvl - 1) as nat) == Some((ops, q)),
        ws_end(s, q) == q,
        binary_op_at(s, q, lvl) is None,
    ensures
        level_from(s, p, lvl) == Some((ops, q)),
{
    assert(binary_rest(s, q, lvl, ops) == Some((ops, q)));
}

/// Levels `from` up to `to` each leave an operand alone that no operator
/// of those levels follows.
proof fn lemma_levels_up(s: Seq<char>, p: int, from: nat, to: nat, ops: Seq<OpModel>, q: int)
    requires
        3 <= from,
        from <= to + 1,
        to <= 8,
        0 <= p <= q <= s.len(),
        level_from(s, p, (from - 1) as nat) == Some((ops, q)),
        ws_end(s, q) == q,
        forall|l: nat| from <= l <= to ==> (#[trigger] binary_op_at(s, q, l)) is None,
    ensures
        level_from(s, p, to) == Some((ops, q)),
    decreases to,
{
    if from <= to {
        if from < to {
            lemma_levels_up(s, p, from, (to - 1) as nat, ops, q);
        }
        lemma_level_up(s, p, to, ops, q);
    }
}

/// A binary operator between two digits reads as that operator applied to
/// the two numbers: `7 / 2` is a division, `7 * 2` a multiplication,
/// `7 ** 2` a power, `7 === 2` a strict comparison, and so for each of the
/// sixteen operators.
pub proof fn law_binary_expression(a: char, op: BinaryOp, b: char)
    requires
        is_digit(a),
        is_digit(b),
    ensures
        expr_of(seq![a] + op_symbol(op) + seq![b]) == Some(
            seq![OpModel::Number(10, seq![a]), OpModel::Number(10, seq![b]), OpModel::Binary(op)],
        ),
{
    let sym = op_symbol(op);
    let s = seq![a] + sym + seq![b];
    let k = sym.len() as int;
    let m = 1 + k;
    let lv = op_level(op);
    let left = seq![OpModel::Number(10, seq![a])];
    let right = seq![OpModel::Number(10, seq![b])];
    assert(s[0] == a);
    assert(s[m] == b);
    assert(s.len() == m + 1);
    assert forall|i: int| 0 <= i < k implies s[1 + i] == sym[i] by {}
    assert(binary_op_at(s, 1, lv) == Some((op, k)));
    assert(forall|l: nat| 3 <= l <= 8 && l != lv ==> (#[trigger] binary_op_at(s, 1, l)) is None);
    assert(forall|l: nat| 3 <= l <= 8 ==> (#[trigger] binary_op_at(s, m + 1, l)) is None);
    assert(ws_end(s, 1) == 1);
    assert(ws_end(s, m + 1) == m + 1);
    // The left operand, up to the operator's level.
    lemma_digit_operand(s, 0);
    lemma_levels_up(s, 0, 3, (lv - 1) as nat, left, 1);
    // The right operand, up to the level below the operator's.
    lemma_digit_operand(s, m);
    lemma_levels_up(s, m, 3, (lv - 1) as nat, right, m + 1);
    assert(level_from(s, 0, (lv - 1) as nat) == Some((left, 1int)));
    assert(level_from(s, m, (lv - 1) as nat) == Some((right, m + 1)));
    // The operator's level joins them.
    let joined = left + right.push(OpModel::Binary(op));
    assert(binary_rest(s, m + 1, lv, joined) == Some((joined, m + 1)));
    assert(binary_rest(s, 1, lv, left) == Some((joined, m + 1)));
    assert(level_from(s, 0, lv) == Some((joined, m + 1)));
    // The levels above it add nothing.
    lemma_levels_up(s, 0, lv + 1, 8, joined, m + 1);
    assert(joined =~= seq![OpModel::Number(10, seq![a]), OpModel::Number(10, seq![b]), OpModel::Binary(op)]);
}

/// Whether `s` holds `c` at `p`.
fn char_at(s: &Vec<char>, p: usize, c: char) -> (r: bool)
    ensures
        r == at(s@, p as int, c),
{
    p < s.len() && s[p] == c
}

/// The binary operator of level `lvl` at `p`.
fn binary_op(s: &Vec<char>, p: usize, lvl: u8) -> (r: Option<(BinaryOp, usize)>)
    requires
        p <= s.len(),
    ensures
        match binary_op_at(s@, p as int, lvl as nat) {
            Some((op, k)) => r == Some((op, k as usize)),
            None => r is None,
        },
{
    if lvl == 8 {
        if char_at(s, p, '|') && char_at(s, p + 1, '|') { Some((BinaryOp::Or, 2)) } else { None }
    } else if lvl == 7 {
        if char_at(s, p, '&') && char_at(s, p + 1, '&') { Some((BinaryOp::And, 2)) } else { None }
    } else if lvl == 6 {
        if char_at(s, p, '=') && char_at(s, p + 1, '=') && char_at(s, p + 2, '=') {
            Some((BinaryOp::StrictEq, 3))
        } else if char_at(s, p, '!') && char_at(s, p + 1, '=') && char_at(s, p + 2, '=') {
            Some((BinaryOp::StrictNe, 3))
        } else if char_at(s, p, '=') && char_at(s, p + 1, '=') {
            Some((BinaryOp::LooseEq, 2))
        } else if char_at(s, p, '!') && char_at(s, p + 1, '=') {
            Some((BinaryOp::LooseNe, 2))
        } else {
            None
        }
    } else if lvl == 5 {
        if char_at(s, p, '<') && char_at(s, p + 1, '=') {
            Some((BinaryOp::Le, 2))
        } else if char_at(s, p, '>') && char_at(s, p + 1, '=') {
            Some((BinaryOp::Ge, 2))
        } else if char_at(s, p, '<') {
            Some((BinaryOp::Lt, 1))
        } else if char_at(s, p, '>') {
            Some((BinaryOp::Gt, 1))
        } else {
            None
        }
    } else if lvl == 4 {
        if char_at(s, p, '+') {
            Some((BinaryOp::Add, 1))
        } else if char_at(s, p, '-') {
            Some((BinaryOp::Sub, 1))
        } else {
            None
        }
    } else if lvl == 3 {
        if char_at(s, p, '*') && char_at(s, p + 1, '*') {
            Some((BinaryOp::Pow, 2))
        } else if char_at(s, p, '*') {
            Some((BinaryOp::Mul, 1))
        } else if char_at(s, p, '/') {
            Some((BinaryOp::Div, 1))
        } else if char_at(s, p, '%') {
            Some((BinaryOp::Rem, 1))
        } else {
            None
        }
    } else {
        None
    }
}

/// The keyword an identifier is.
fn keyword(ident: &str) -> (r: Option<Keyword>)
    ensures
        r == keyword_of(ident@),
{
    if str_eq(ident, "true") {
        Some(Keyword::True)
    } else if str_eq(ident, "false") {
        Some(Keyword::False)
    } else if str_eq(ident, "null") {
        Some(Keyword::Null)
    } else if str_eq(ident, "undefined") {
        Some(Keyword::Undefined)
    } else if str_eq(ident, "NaN") {
        Some(Keyword::NaN)
    } else if str_eq(ident, "Infinity") {
        Some(Keyword::Infinity)
    } else {
        None
    }
}

/// `a` followed by `b`.
fn join(a: Vec<ExprOp>, b: Vec<ExprOp>) -> (r: Vec<ExprOp>)
    ensures
        ops_view(r@) == ops_view(a@) + ops_view(b@),
{
    let mut a = a;
    let mut b = b;
    let ghost a0 = a@;
    let ghost b0 = b@;
    a.append(&mut b);
    assert(ops_view(a@) =~= ops_view(a0) + ops_view(b0));
    a
}

/// `a` followed by `op`.
fn push_op(a: Vec<ExprOp>, op: ExprOp) -> (r: Vec<ExprOp>)
    ensures
        ops_view(r@) == ops_view(a@).push(op_view(op)),
{
    let mut a = a;
    let ghost a0 = a@;
    let ghost o = op_view(op);
    a.push(op);
    assert(ops_view(a@) =~= ops_view(a0).push(o));
    a
}

/// Operations as plain values, if any.
pub open spec fn opt_ops(r: Option<Vec<ExprOp>>) -> Option<Seq<OpModel>> {
    match r {
        Some(v) => Some(ops_view(v@)),
        None => None,
    }
}

/// Whether a reader's result and cursor are what `expected` says.
pub open spec fn read_as(r: Option<Vec<ExprOp>>, pos: usize, expected: Option<(Seq<OpModel>, int)>) -> bool {
    match expected {
        Some((ops, q)) => opt_ops(r) == Some(ops) && pos == q,
        None => r is None,
    }
}

impl ExprParser {
    /// Reads an expression of level `lvl` at the cursor.
    fn level(&mut self, lvl: u8) -> (r: Option<Vec<ExprOp>>)
        requires
            old(self).pos <= old(self).src.len(),
            lvl <= 8,
        ensures
            final(self).src@ == old(self).src@,
            read_as(r, final(self).pos, level_from(old(self).src@, old(self).pos as int, lvl as nat)),
        decreases old(self).src.len() - old(self).pos, 2 * lvl + 1,
    {
        let p = self.pos;
        if lvl >= 3 {
            let left = match self.level(lvl - 1) {
                Some(left) => left,
                None => return None,
            };
            if !(p <= self.pos && self.pos <= self.src.len()) {
                return None;
            }
            self.binary_rest(lvl, left)
        } else if lvl == 2 {
            self.skip_ws();
            proof {
                lemma_ws_end(self.src@, p as int);
            }
            let r = self.pos;
            let plus = char_at(&self.src, r, '+');
            let minus = char_at(&self.src, r, '-');
            let not = char_at(&self.src, r, '!') && !char_at(&self.src, r + 1, '=');
            if plus || minus || not {
                let op = if plus {
                    ExprOp::Plus
                } else if minus {
                    ExprOp::Neg
                } else {
                    ExprOp::Not
                };
                self.pos = r + 1;
                match self.level(2) {
                    Some(e) => Some(push_op(e, op)),
                    None => None,
                }
            } else {
                self.pos = p;
                self.level(1)
            }
        } else if lvl == 1 {
            let e = match self.level(0) {
                Some(e) => e,
                None => return None,
            };
            if !(p <= self.pos && self.pos <= self.src.len()) {
                return None;
            }
            self.postfix_rest(e)
        } else {
            self.primary()
        }
    }

    /// Reads the further operators of level `lvl` after an operand `left`
    /// that ends at the cursor.
    fn binary_rest(&mut self, lvl: u8, left: Vec<ExprOp>) -> (r: Option<Vec<ExprOp>>)
        requires
            old(self).pos <= old(self).src.len(),
            3 <= lvl <= 8,
        ensures
            final(self).src@ == old(self).src@,
            read_as(r, final(self).pos, binary_rest(old(self).src@, old(self).pos as int, lvl as nat, ops_view(left@))),
        decreases old(self).src.len() - old(self).pos, 2 * lvl,
    {
        let q = self.pos;
        self.skip_ws();
        proof {
            lemma_ws_end(self.src@, q as int);
        }
        let r = self.pos;
        match binary_op(&self.src, r, lvl) {
            Some((op, k)) => {
                if k > self.src.len() - r {
                    return None;
                }
                self.pos = r + k;
                let right = match self.level(lvl - 1) {
                    Some(right) => right,
                    None => return None,
                };
                if !(q < self.pos && self.pos <= self.src.len()) {
                    return None;
                }
                let combined = join(left, push_op(right, ExprOp::Binary(op)));
                self.binary_rest(lvl, combined)
            },
            None => {
                self.pos = q;
                Some(left)
            },
        }
    }

    /// Reads each `[index]` after an operand `e` that ends at the cursor.
    fn postfix_rest(&mut self, e: Vec<ExprOp>) -> (r: Option<Vec<ExprOp>>)
        requires
            old(self).pos <= old(self).src.len(),
        ensures
            final(self).src@ == old(self).src@,
            read_as(r, final(self).pos, postfix_rest(old(self).src@, old(self).pos as int, ops_view(e@))),
        decreases old(self).src.len() - old(self).pos, 2nat,
    {
        let q = self.pos;
        self.skip_ws();
        proof {
            lemma_ws_end(self.src@, q as int);
        }
        let r = self.pos;
        if char_at(&self.src, r, '[') {
            self.pos = r + 1;
            let index = match self.level(8) {
                Some(index) => index,
                None => return None,
            };
            let q2 = self.pos;
            if !(q < q2 && q2 <= self.src.len()) {
                return None;
            }
            self.skip_ws();
            proof {
                lemma_ws_end(self.src@, q2 as int);
            }
            let r2 = self.pos;
            if !char_at(&self.src, r2, ']') {
                return None;
            }
            self.pos = r2 + 1;
            let combined = join(e, push_op(index, ExprOp::Index));
            self.postfix_rest(combined)
        } else {
            self.pos = q;
            Some(e)
        }
    }

    /// Reads the items of an array literal from the cursor, `n` items with
    /// operations `acc` read before.
    fn array_items(&mut self, acc: Vec<ExprOp>, n: usize) -> (r: Option<Vec<ExprOp>>)
        requires
            old(self).pos <= old(self).src.len(),
            n <= old(self).pos,
        ensures
            final(self).src@ == old(self).src@,
            read_as(r, final(self).pos, array_items(old(self).src@, old(self).pos as int, ops_view(acc@), n as nat)),
        decreases old(self).src.len() - old(self).pos, 20nat,
    {
        let p = self.pos;
        let item = match self.level(8) {
            Some(item) => item,
            None => return None,
        };
        let q = self.pos;
        if !(p < q && q <= self.src.len()) {
            return None;
        }
        self.skip_ws();
        proof {
            lemma_ws_end(self.src@, q as int);
        }
        let r = self.pos;
        if char_at(&self.src, r, ',') {
            self.pos = r + 1;
            self.array_items(join(acc, item), n + 1)
        } else if char_at(&self.src, r, ']') {
            self.pos = r + 1;
            Some(join(acc, push_op(item, ExprOp::Array(n + 1))))
        } else {
            None
        }
    }

    /// Reads a primary expression at the cursor.
    fn primary(&mut self) -> (r: Option<Vec<ExprOp>>)
        requires
            old(self).pos <= old(self).src.len(),
        ensures
            final(self).src@ == old(self).src@,
            read_as(r, final(self).pos, primary_from(old(self).src@, old(self).pos as int)),
        decreases old(self).src.len() - old(self).pos, 0nat,
    {
        let p = self.pos;
        self.skip_ws();
        proof {
            lemma_ws_end(self.src@, p as int);
        }
        let r = self.pos;
        if r >= self.src.len() {
            return None;
        }
        let c = self.src[r];
        if c == '(' {
            self.pos = r + 1;
            let e = match self.level(8) {
                Some(e) => e,
                None => return None,
            };
            let q = self.pos;
            if !(r < q && q <= self.src.len()) {
                return None;
            }
            self.skip_ws();
            if !char_at(&self.src, self.pos, ')') {
                return None;
            }
            self.pos = self.pos + 1;
            Some(e)
        } else if c == '[' {
            self.pos = r + 1;
            self.skip_ws();
            let r1 = self.pos;
            if char_at(&self.src, r1, ']') {
                self.pos = r1 + 1;
                let mut v: Vec<ExprOp> = Vec::new();
                v.push(ExprOp::Array(0));
                assert(ops_view(v@) =~= seq![OpModel::Array(0)]);
                Some(v)
            } else {
                self.pos = r + 1;
                self.array_items(Vec::new(), 0)
            }
        } else if c == '"' || c == '\'' {
            match self.parse_string(c) {
                Some(t) => {
                    let mut v: Vec<ExprOp> = Vec::new();
                    let ghost tv = t@;
                    v.push(ExprOp::Text(t));
                    assert(ops_view(v@) =~= seq![OpModel::Text(tv)]);
                    Some(v)
                },
                None => None,
            }
        } else if is_digit_char(c) || (c == '.' && r + 1 < self.src.len() && is_digit_char(self.src[r + 1])) {
            match self.scan_number() {
                Some(n) => {
                    let ghost nv = OpModel::Number(n.radix, n.text@);
                    let mut v: Vec<ExprOp> = Vec::new();
                    v.push(ExprOp::Number(n));
                    assert(ops_view(v@) =~= seq![nv]);
                    Some(v)
                },
                None => None,
            }
        } else if is_ident_start(c) {
            let ident = self.parse_ident();
            match keyword(ident.as_str()) {
                Some(k) => {
                    let mut v: Vec<ExprOp> = Vec::new();
                    v.push(ExprOp::Keyword(k));
                    assert(ops_view(v@) =~= seq![OpModel::Keyword(k)]);
                    Some(v)
                },
                None => None,
            }
        } else {
            None
        }
    }
}

/// Whether `c` is an ASCII digit.
fn is_digit_char(c: char) -> (r: bool)
    ensures
        r == is_digit(c),
{
    '0' <= c && c <= '9'
}

/// The operations of an expression text in postfix order, if it reads.
pub fn parse_expression(src: &str) -> (r: Option<Vec<ExprOp>>)
    ensures
        opt_ops(r) == expr_of(src@),
{
    let mut parser = ExprParser { src: chars_of(src), pos: 0 };
    let ops = match parser.level(8) {
        Some(ops) => ops,
        None => return None,
    };
    let q = parser.pos;
    if q > parser.src.len() {
        return None;
    }
    parser.skip_ws();
    if parser.pos != parser.src.len() {
        return None;
    }
    Some(ops)
}

} // verus!
