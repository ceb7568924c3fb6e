//! The small regular-expression engine that variable substitution runs on:
//! a parser for the JavaScript pattern subset, a backtracking matcher and
//! global replacement with `$`-patterns.
use vstd::prelude::*;

use crate::text::{char_is_whitespace, is_whitespace};

verus! {

/// One member of a bracket class such as `[a-z\d]`.
#[derive(Clone, Copy, Debug, PartialEq, Eq)]
pub enum ClassItem {
    Char(char),
    Range(char, char),
    Digit(bool),
    Word(bool),
    Space(bool),
}

/// A parsed pattern.
#[derive(Debug)]
pub enum Re {
    Empty,
    Lit(char),
    Any,
    Class(bool, Vec<ClassItem>),
    Start,
    End,
    WordBoundary(bool),
    Concat(Vec<Re>),
    Alt(Vec<Re>),
    Repeat(Box<Re>, u32, Option<u32>, bool),
}

/// The mathematical form of a pattern, over which its meaning is stated.
pub enum ReModel {
    Empty,
    Lit(char),
    Any,
    Class(bool, Seq<ClassItem>),
    Start,
    End,
    WordBoundary(bool),
    Concat(Seq<ReModel>),
    Alt(Seq<ReModel>),
    Repeat(Box<ReModel>, u32, Option<u32>, bool),
}

impl Re {
    pub open spec fn view(&self) -> ReModel
        decreases self,
    {
        match self {
            Re::Empty => ReModel::Empty,
            Re::Lit(c) => ReModel::Lit(*c),
            Re::Any => ReModel::Any,
            Re::Class(negated, items) => ReModel::Class(*negated, items@),
            Re::Start => ReModel::Start,
            Re::End => ReModel::End,
            Re::WordBoundary(want) => ReModel::WordBoundary(*want),
            Re::Concat(nodes) => ReModel::Concat(Re::view_all(nodes@, nodes@.len() as int)),
            Re::Alt(alts) => ReModel::Alt(Re::view_all(alts@, alts@.len() as int)),
            Re::Repeat(inner, min, max, greedy) => ReModel::Repeat(
                Box::new((**inner).view()),
                *min,
                *max,
                *greedy,
            ),
        }
    }

    /// The models of the first `n` patterns of `s`.
    pub open spec fn view_all(s: Seq<Re>, n: int) -> Seq<ReModel>
        decreases s, n,
    {
        if n <= 0 || n > s.len() {
            Seq::empty()
        } else {
            Re::view_all(s, n - 1).push(s[n - 1].view())
        }
    }
}

pub proof fn lemma_view_all(s: Seq<Re>, n: int)
    requires
        0 <= n <= s.len(),
    ensures
        Re::view_all(s, n).len() == n,
        forall|i: int| 0 <= i < n ==> Re::view_all(s, n)[i] == #[trigger] s[i].view(),
    decreases n,
{
    if n > 0 {
        lemma_view_all(s, n - 1);
    }
}

// ---------------------------------------------------------------------
// Character classes

pub open spec fn is_digit(c: char) -> bool {
    '0' <= c && c <= '9'
}

/// A character of `\w`: ASCII letter, digit or underscore.
pub open spec fn is_word(c: char) -> bool {
    ('a' <= c && c <= 'z') || ('A' <= c && c <= 'Z') || is_digit(c) || c == '_'
}

/// A character of `\s`: Unicode white space or the byte-order mark.
pub open spec fn is_space(c: char) -> bool {
    char_is_whitespace(c) || c == '\u{feff}'
}

/// The characters that `.` does not match.
pub open spec fn is_line_terminator(c: char) -> bool {
    c == '\n' || c == '\r' || c == '\u{2028}' || c == '\u{2029}'
}

pub open spec fn item_matches(item: ClassItem, c: char) -> bool {
    match item {
        ClassItem::Char(x) => x == c,
        ClassItem::Range(a, b) => a <= c && c <= b,
        ClassItem::Digit(positive) => is_digit(c) == positive,
        ClassItem::Word(positive) => is_word(c) == positive,
        ClassItem::Space(positive) => is_space(c) == positive,
    }
}

/// A class accepts `c` when some item matches it, negation flipping that.
pub open spec fn class_accepts(negated: bool, items: Seq<ClassItem>, c: char) -> bool {
    (exists|i: int| 0 <= i < items.len() && item_matches(#[trigger] items[i], c)) != negated
}

// ---------------------------------------------------------------------
// Matching: the end positions a pattern can reach from a start position,
// in the order a backtracking matcher tries them.

pub open spec fn step_end(ok: bool, p: int) -> Seq<int> {
    if ok {
        seq![p]
    } else {
        Seq::empty()
    }
}

pub open spec fn at_word(t: Seq<char>, p: int) -> bool {
    0 <= p < t.len() && is_word(t[p])
}

pub open spec fn ends(r: ReModel, t: Seq<char>, p: int) -> Seq<int>
    decreases r, 0int, 0int,
{
    match r {
        ReModel::Empty => seq![p],
        ReModel::Lit(c) => step_end(0 <= p < t.len() && t[p] == c, p + 1),
        ReModel::Any => step_end(0 <= p < t.len() && !is_line_terminator(t[p]), p + 1),
        ReModel::Class(negated, items) => step_end(
            0 <= p < t.len() && class_accepts(negated, items, t[p]),
            p + 1,
        ),
        ReModel::Start => step_end(p == 0, p),
        ReModel::End => step_end(p == t.len(), p),
        ReModel::WordBoundary(want) => step_end((at_word(t, p - 1) != at_word(t, p)) == want, p),
        ReModel::Concat(nodes) => concat_ends(nodes, 0, t, seq![p]),
        ReModel::Alt(alts) => alt_ends(alts, 0, t, p),
        ReModel::Repeat(inner, min, max, greedy) => rep_ends(*inner, min, max, greedy, 0, t, p),
    }
}

/// Runs `nodes[k..]` in sequence from each of the positions `ps` in turn.
pub open spec fn concat_ends(nodes: Seq<ReModel>, k: int, t: Seq<char>, ps: Seq<int>) -> Seq<int>
    decreases nodes, nodes.len() - k, 0int,
{
    if k < 0 || k >= nodes.len() {
        ps
    } else {
        concat_ends(nodes, k + 1, t, flat_ends(nodes[k], t, ps))
    }
}

/// The ends of `r` from each position of `ps`, one after another.
pub open spec fn flat_ends(r: ReModel, t: Seq<char>, ps: Seq<int>) -> Seq<int>
    decreases r, 1int, ps.len(),
{
    if ps.len() == 0 {
        Seq::empty()
    } else {
        ends(r, t, ps[0]) + flat_ends(r, t, ps.drop_first())
    }
}

/// The ends of the alternatives `alts[k..]`, in order.
pub open spec fn alt_ends(alts: Seq<ReModel>, k: int, t: Seq<char>, p: int) -> Seq<int>
    decreases alts, alts.len() - k, 0int,
{
    if k < 0 || k >= alts.len() {
        Seq::empty()
    } else {
        ends(alts[k], t, p) + alt_ends(alts, k + 1, t, p)
    }
}

pub open spec fn can_repeat(max: Option<u32>, count: nat) -> bool {
    match max {
        Some(limit) => count < limit,
        None => true,
    }
}

/// The ends of `inner` repeated, `count` copies having matched already.
/// A greedy repeat tries one more copy before stopping, a lazy one stops first.
pub open spec fn rep_ends(
    inner: ReModel,
    min: u32,
    max: Option<u32>,
    greedy: bool,
    count: nat,
    t: Seq<char>,
    p: int,
) -> Seq<int>
    decreases inner, 2 * (t.len() - p) + 2, 0int,
{
    if p < 0 || p > t.len() {
        Seq::empty()
    } else {
        let stop = step_end(count >= min, p);
        let more = if can_repeat(max, count) {
            rep_each(inner, min, max, greedy, count, t, p, ends(inner, t, p))
        } else {
            Seq::empty()
        };
        if greedy {
            more + stop
        } else {
            stop + more
        }
    }
}

/// Continues a repeat from each end `es` of one more copy of `inner`.
pub open spec fn rep_each(
    inner: ReModel,
    min: u32,
    max: Option<u32>,
    greedy: bool,
    count: nat,
    t: Seq<char>,
    p: int,
    es: Seq<int>,
) -> Seq<int>
    decreases inner, 2 * (t.len() - p) + 1, es.len(),
{
    if es.len() == 0 || p < 0 || p > t.len() {
        Seq::empty()
    } else {
        let e = es[0];
        let first = if e == p {
            step_end(greedy && count + 1 >= min, e)
        } else if p < e && e <= t.len() {
            rep_ends(inner, min, max, greedy, count + 1, t, e)
        } else {
            Seq::empty()
        };
        first + rep_each(inner, min, max, greedy, count, t, p, es.drop_first())
    }
}

// ---------------------------------------------------------------------
// Every end lies between the start position and the end of the text.

pub open spec fn all_within(ps: Seq<int>, lo: int, hi: int) -> bool {
    forall|i: int| 0 <= i < ps.len() ==> lo <= #[trigger] ps[i] <= hi
}

pub proof fn lemma_ends_within(r: ReModel, t: Seq<char>, p: int)
    requires
        0 <= p <= t.len(),
    ensures
        all_within(ends(r, t, p), p, t.len() as int),
    decreases r, 0int, 0int,
{
    match r {
        ReModel::Concat(nodes) => {
            lemma_concat_within(nodes, 0, t, seq![p], p);
        },
        ReModel::Alt(alts) => {
            lemma_alt_within(alts, 0, t, p);
        },
        ReModel::Repeat(inner, min, max, greedy) => {
            lemma_rep_within(*inner, min, max, greedy, 0, t, p);
        },
        _ => {},
    }
}

pub proof fn lemma_concat_within(nodes: Seq<ReModel>, k: int, t: Seq<char>, ps: Seq<int>, lo: int)
    requires
        0 <= lo,
        all_within(ps, lo, t.len() as int),
    ensures
        all_within(concat_ends(nodes, k, t, ps), lo, t.len() as int),
    decreases nodes, nodes.len() - k, 0int,
{
    if !(k < 0 || k >= nodes.len()) {
        lemma_flat_within(nodes[k], t, ps, lo);
        lemma_concat_within(nodes, k + 1, t, flat_ends(nodes[k], t, ps), lo);
    }
}

pub proof fn lemma_flat_within(r: ReModel, t: Seq<char>, ps: Seq<int>, lo: int)
    requires
        0 <= lo,
        all_within(ps, lo, t.len() as int),
    ensures
        all_within(flat_ends(r, t, ps), lo, t.len() as int),
    decreases r, 1int, ps.len(),
{
    if ps.len() > 0 {
        assert(lo <= ps[0] <= t.len());
        lemma_ends_within(r, t, ps[0]);
        lemma_flat_within(r, t, ps.drop_first(), lo);
        let a = ends(r, t, ps[0]);
        let b = flat_ends(r, t, ps.drop_first());
        assert forall|i: int| 0 <= i < (a + b).len() implies lo <= #[trigger] (a + b)[i] <= t.len() by {
            if i < a.len() {
                assert((a + b)[i] == a[i]);
            } else {
                assert((a + b)[i] == b[i - a.len()]);
            }
        }
    }
}

pub proof fn lemma_alt_within(alts: Seq<ReModel>, k: int, t: Seq<char>, p: int)
    requires
        0 <= p <= t.len(),
    ensures
        all_within(alt_ends(alts, k, t, p), p, t.len() as int),
    decreases alts, alts.len() - k, 0int,
{
    if !(k < 0 || k >= alts.len()) {
        lemma_ends_within(alts[k], t, p);
        lemma_alt_within(alts, k + 1, t, p);
        let a = ends(alts[k], t, p);
        let b = alt_ends(alts, k + 1, t, p);
        assert forall|i: int| 0 <= i < (a + b).len() implies p <= #[trigger] (a + b)[i] <= t.len() by {
            if i < a.len() {
                assert((a + b)[i] == a[i]);
            } else {
                assert((a + b)[i] == b[i - a.len()]);
            }
        }
    }
}

pub proof fn lemma_rep_within(
    inner: ReModel,
    min: u32,
    max: Option<u32>,
    greedy: bool,
    count: nat,
    t: Seq<char>,
    p: int,
)
    ensures
        all_within(rep_ends(inner, min, max, greedy, count, t, p), p, t.len() as int),
    decreases inner, 2 * (t.len() - p) + 2, 0int,
{
    if !(p < 0 || p > t.len()) {
        let stop = step_end(count >= min, p);
        let more = if can_repeat(max, count) {
            lemma_ends_within(inner, t, p);
            lemma_rep_each_within(inner, min, max, greedy, count, t, p, ends(inner, t, p));
            rep_each(inner, min, max, greedy, count, t, p, ends(inner, t, p))
        } else {
            Seq::empty()
        };
        assert(all_within(more, p, t.len() as int));
        assert forall|i: int| 0 <= i < (more + stop).len() implies p <= #[trigger] (more + stop)[i] <= t.len() by {
            if i < more.len() {
                assert((more + stop)[i] == more[i]);
            } else {
                assert((more + stop)[i] == stop[i - more.len()]);
            }
        }
        assert forall|i: int| 0 <= i < (stop + more).len() implies p <= #[trigger] (stop + more)[i] <= t.len() by {
            if i < stop.len() {
                assert((stop + more)[i] == stop[i]);
            } else {
                assert((stop + more)[i] == more[i - stop.len()]);
            }
        }
    }
}

pub proof fn lemma_rep_each_within(
    inner: ReModel,
    min: u32,
    max: Option<u32>,
    greedy: bool,
    count: nat,
    t: Seq<char>,
    p: int,
    es: Seq<int>,
)
    requires
        all_within(es, p, t.len() as int),
    ensures
        all_within(rep_each(inner, min, max, greedy, count, t, p, es), p, t.len() as int),
    decreases inner, 2 * (t.len() - p) + 1, es.len(),
{
    if !(es.len() == 0 || p < 0 || p > t.len()) {
        let e = es[0];
        let first = if e == p {
            step_end(greedy && count + 1 >= min, e)
        } else if p < e && e <= t.len() {
            lemma_rep_within(inner, min, max, greedy, count + 1, t, e);
            rep_ends(inner, min, max, greedy, count + 1, t, e)
        } else {
            Seq::empty()
        };
        assert(all_within(first, p, t.len() as int));
        lemma_rep_each_within(inner, min, max, greedy, count, t, p, es.drop_first());
        let rest = rep_each(inner, min, max, greedy, count, t, p, es.drop_first());
        assert forall|i: int| 0 <= i < (first + rest).len() implies p <= #[trigger] (first + rest)[i] <= t.len() by {
            if i < first.len() {
                assert((first + rest)[i] == first[i]);
            } else {
                assert((first + rest)[i] == rest[i - first.len()]);
            }
        }
    }
}

// ---------------------------------------------------------------------
// The matcher

pub open spec fn positions(v: Seq<usize>) -> Seq<int> {
    v.map_values(|e: usize| e as int)
}

pub fn is_word_char(c: char) -> (r: bool)
    ensures
        r == is_word(c),
{
    ('a' <= c && c <= 'z') || ('A' <= c && c <= 'Z') || ('0' <= c && c <= '9') || c == '_'
}

pub fn is_js_line_terminator(c: char) -> (r: bool)
    ensures
        r == is_line_terminator(c),
{
    c == '\n' || c == '\r' || c == '\u{2028}' || c == '\u{2029}'
}

pub fn is_js_space(c: char) -> (r: bool)
    ensures
        r == is_space(c),
{
    is_whitespace(c) || c == '\u{feff}'
}

pub fn class_item_matches(item: &ClassItem, c: char) -> (r: bool)
    ensures
        r == item_matches(*item, c),
{
    match item {
        ClassItem::Char(x) => *x == c,
        ClassItem::Range(a, b) => *a <= c && c <= *b,
        ClassItem::Digit(positive) => ('0' <= c && c <= '9') == *positive,
        ClassItem::Word(positive) => is_word_char(c) == *positive,
        ClassItem::Space(positive) => is_js_space(c) == *positive,
    }
}

pub fn class_matches(negated: bool, items: &Vec<ClassItem>, c: char) -> (r: bool)
    ensures
        r == class_accepts(negated, items@, c),
{
    let mut hit = false;
    let mut i: usize = 0;
    while i < items.len()
        invariant
            i <= items.len(),
            hit == (exists|j: int| 0 <= j < i && item_matches(#[trigger] items@[j], c)),
        decreases items.len() - i,
    {
        if class_item_matches(&items[i], c) {
            hit = true;
        }
        i += 1;
    }
    hit != negated
}

/// Appends `extra` to `out`, keeping the integer view in step.
fn append_positions(out: &mut Vec<usize>, extra: Vec<usize>)
    ensures
        positions(final(out)@) == positions(old(out)@) + positions(extra@),
{
    let mut extra = extra;
    let ghost before = out@;
    let ghost added = extra@;
    out.append(&mut extra);
    assert(out@ =~= before + added);
    assert(positions(out@) =~= positions(before) + positions(added));
}

/// The end positions that `node` reaches from `pos`, in backtracking order.
#[verifier::loop_isolation(false)]
pub fn re_match(node: &Re, text: &Vec<char>, pos: usize) -> (res: Vec<usize>)
    requires
        pos <= text.len(),
    ensures
        positions(res@) == ends(node@, text@, pos as int),
    decreases node, 1int,
{
    match node {
        Re::Empty => vec![pos],
        Re::Lit(c) => {
            if pos < text.len() && text[pos] == *c {
                vec![pos + 1]
            } else {
                Vec::new()
            }
        },
        Re::Any => {
            if pos < text.len() && !is_js_line_terminator(text[pos]) {
                vec![pos + 1]
            } else {
                Vec::new()
            }
        },
        Re::Class(negated, items) => {
            if pos < text.len() && class_matches(*negated, items, text[pos]) {
                vec![pos + 1]
            } else {
                Vec::new()
            }
        },
        Re::Start => {
            if pos == 0 {
                vec![pos]
            } else {
                Vec::new()
            }
        },
        Re::End => {
            if pos == text.len() {
                vec![pos]
            } else {
                Vec::new()
            }
        },
        Re::WordBoundary(want) => {
            let before = pos > 0 && is_word_char(text[pos - 1]);
            let after = pos < text.len() && is_word_char(text[pos]);
            if (before != after) == *want {
                vec![pos]
            } else {
                Vec::new()
            }
        },
        Re::Concat(nodes) => re_match_seq(node, nodes, text, pos),
        Re::Alt(alts) => {
            let ghost ms = Re::view_all(alts@, alts@.len() as int);
            proof {
                lemma_view_all(alts@, alts@.len() as int);
            }
            let mut out: Vec<usize> = Vec::new();
            let mut k: usize = 0;
            while k < alts.len()
                invariant
                    k <= alts.len(),
                    positions(out@) + alt_ends(ms, k as int, text@, pos as int) == alt_ends(
                        ms,
                        0,
                        text@,
                        pos as int,
                    ),
                decreases alts.len() - k,
            {
                proof {
                    assert(decreases_to!(*node => (*node)->Alt_0));
                    assert(decreases_to!((*node)->Alt_0 => alts@));
                    assert(decreases_to!(alts@ => alts@[k as int]));
                }
                let found = re_match(&alts[k], text, pos);
                let ghost prev = out@;
                append_positions(&mut out, found);
                assert(positions(out@) + alt_ends(ms, k + 1, text@, pos as int) =~= positions(prev)
                    + alt_ends(ms, k as int, text@, pos as int));
                k += 1;
            }
            assert(alt_ends(ms, k as int, text@, pos as int) =~= Seq::<int>::empty());
            assert(positions(out@) =~= positions(out@) + alt_ends(ms, k as int, text@, pos as int));
            out
        },
        Re::Repeat(inner, min, max, greedy) => {
            proof {
                assert(decreases_to!(*node => (*node)->Repeat_0));
            }
            re_match_repeat(inner, *min, *max, *greedy, 0, text, pos)
        },
    }
}

/// The ends of the sequence `nodes` of the concatenation `node`.
#[verifier::loop_isolation(false)]
fn re_match_seq(node: &Re, nodes: &Vec<Re>, text: &Vec<char>, pos: usize) -> (res: Vec<usize>)
    requires
        pos <= text.len(),
        *node == Re::Concat(*nodes),
    ensures
        positions(res@) == concat_ends(Re::view_all(nodes@, nodes@.len() as int), 0, text@, seq![pos as int]),
    decreases node, 0int,
{
    let ghost ms = Re::view_all(nodes@, nodes@.len() as int);
    proof {
        lemma_view_all(nodes@, nodes@.len() as int);
        assert(positions(seq![pos]) =~= seq![pos as int]);
    }
    let mut cur: Vec<usize> = vec![pos];
    assert(positions(cur@) =~= seq![pos as int]);
    let mut k: usize = 0;
    while k < nodes.len()
        invariant
            k <= nodes.len(),
            forall|i: int| 0 <= i < cur@.len() ==> cur@[i] <= text.len(),
            concat_ends(ms, k as int, text@, positions(cur@)) == concat_ends(ms, 0, text@, seq![pos as int]),
        decreases nodes.len() - k,
    {
        let mut next: Vec<usize> = Vec::new();
        let mut j: usize = 0;
        assert(positions(cur@).skip(0) =~= positions(cur@));
        assert(positions(next@) =~= Seq::<int>::empty());
        while j < cur.len()
            invariant
                j <= cur.len(),
                k < nodes.len(),
                forall|i: int| 0 <= i < cur@.len() ==> cur@[i] <= text.len(),
                forall|i: int| 0 <= i < next@.len() ==> next@[i] <= text.len(),
                positions(next@) + flat_ends(ms[k as int], text@, positions(cur@).skip(j as int)) == flat_ends(
                    ms[k as int],
                    text@,
                    positions(cur@),
                ),
            decreases cur.len() - j,
        {
            proof {
                assert(decreases_to!(*node => (*node)->Concat_0));
                assert(decreases_to!((*node)->Concat_0 => nodes@));
                assert(decreases_to!(nodes@ => nodes@[k as int]));
            }
            let found = re_match(&nodes[k], text, cur[j]);
            proof {
                lemma_ends_within(ms[k as int], text@, cur@[j as int] as int);
                assert(positions(cur@).skip(j as int).drop_first() =~= positions(cur@).skip(j + 1));
            }
            let ghost prev = next@;
            let ghost found_i = positions(found@);
            append_positions(&mut next, found);
            proof {
                assert(positions(next@) == positions(prev) + found_i);
                assert(positions(next@).len() == next@.len());
                assert(positions(prev).len() == prev.len());
                assert forall|i: int| 0 <= i < next@.len() implies next@[i] <= text.len() by {
                    assert(positions(next@)[i] == next@[i] as int);
                    if i >= prev.len() {
                        assert(positions(next@)[i] == found_i[i - prev.len()]);
                    } else {
                        assert(positions(next@)[i] == positions(prev)[i]);
                    }
                }
                assert(positions(next@) + flat_ends(ms[k as int], text@, positions(cur@).skip(j + 1))
                    =~= positions(prev) + flat_ends(ms[k as int], text@, positions(cur@).skip(j as int)));
            }
            j += 1;
        }
        proof {
            assert(positions(cur@).skip(j as int) =~= Seq::<int>::empty());
            assert(positions(next@) =~= positions(next@) + flat_ends(ms[k as int], text@, positions(cur@).skip(j as int)));
        }
        cur = next;
        k += 1;
    }
    cur
}

/// The ends of `inner` repeated from `pos` after `count` copies.
#[verifier::loop_isolation(false)]
pub fn re_match_repeat(
    inner: &Re,
    min: u32,
    max: Option<u32>,
    greedy: bool,
    count: usize,
    text: &Vec<char>,
    pos: usize,
) -> (res: Vec<usize>)
    requires
        pos <= text.len(),
        count <= pos,
    ensures
        positions(res@) == rep_ends(inner@, min, max, greedy, count as nat, text@, pos as int),
    decreases inner, text.len() - pos + 2,
{
    let can_more = match max {
        Some(limit) => count < limit as usize,
        None => true,
    };
    let mut more: Vec<usize> = Vec::new();
    if can_more {
        let es = re_match(inner, text, pos);
        let ghost es_i = positions(es@);
        proof {
            lemma_ends_within(inner@, text@, pos as int);
        }
        let mut j: usize = 0;
        assert(es_i.skip(0) =~= es_i);
        assert(positions(more@) =~= Seq::<int>::empty());
        while j < es.len()
            invariant
                j <= es.len(),
                es_i == positions(es@),
                es_i == ends(inner@, text@, pos as int),
                positions(more@) + rep_each(inner@, min, max, greedy, count as nat, text@, pos as int, es_i.skip(j as int))
                    == rep_each(inner@, min, max, greedy, count as nat, text@, pos as int, es_i),
            decreases es.len() - j,
        {
            let e = es[j];
            let ghost prev = more@;
            proof {
                assert(es_i.skip(j as int).drop_first() =~= es_i.skip(j + 1));
                assert(es_i.skip(j as int)[0] == e as int);
            }
            if e == pos {
                if greedy && (min == 0 || count >= (min - 1) as usize) {
                    more.push(e);
                    assert(positions(more@) =~= positions(prev) + seq![e as int]);
                } else {
                    assert(positions(more@) =~= positions(prev) + Seq::<int>::empty());
                }
            } else if pos < e && e <= text.len() {
                let found = re_match_repeat(inner, min, max, greedy, count + 1, text, e);
                append_positions(&mut more, found);
            } else {
                assert(positions(more@) =~= positions(prev) + Seq::<int>::empty());
            }
            proof {
                assert(positions(more@) + rep_each(inner@, min, max, greedy, count as nat, text@, pos as int, es_i.skip(j + 1))
                    =~= positions(prev) + rep_each(inner@, min, max, greedy, count as nat, text@, pos as int, es_i.skip(j as int)));
            }
            j += 1;
        }
        proof {
            assert(es_i.skip(j as int) =~= Seq::<int>::empty());
            assert(positions(more@) =~= positions(more@) + rep_each(inner@, min, max, greedy, count as nat, text@, pos as int, es_i.skip(j as int)));
            assert(es_i.skip(0) =~= es_i);
        }
    }
    let ghost more_i = positions(more@);
    if count >= min as usize {
        if greedy {
            more.push(pos);
            assert(positions(more@) =~= more_i + seq![pos as int]);
            more
        } else {
            let mut out = vec![pos];
            assert(positions(out@) =~= seq![pos as int]);
            append_positions(&mut out, more);
            out
        }
    } else {
        assert(more_i =~= more_i + Seq::<int>::empty());
        assert(more_i =~= Seq::<int>::empty() + more_i);
        more
    }
}

// ---------------------------------------------------------------------
// The pattern grammar, as a parse of the characters `s` from position `p`
// that gives the pattern and the position after it.

pub open spec fn peek_at(s: Seq<char>, p: int) -> Option<char> {
    if 0 <= p < s.len() {
        Some(s[p])
    } else {
        None
    }
}

/// The end of the run of ASCII digits that starts at `p`.
pub open spec fn digit_run_end(s: Seq<char>, p: int) -> int
    decreases s.len() - p,
{
    if 0 <= p < s.len() && is_digit(s[p]) {
        digit_run_end(s, p + 1)
    } else {
        p
    }
}

pub open spec fn digit_value(c: char) -> int {
    c as int - '0' as int
}

/// The decimal value of the digits `s[p..e]`.
pub open spec fn decimal_value(s: Seq<char>, p: int, e: int) -> int
    decreases e - p,
{
    if e <= p {
        0
    } else {
        decimal_value(s, p, e - 1) * 10 + digit_value(s[e - 1])
    }
}

/// A decimal count, refused when empty or beyond `u32`.
pub open spec fn p_int(s: Seq<char>, p: int) -> Option<(u32, int)> {
    let e = digit_run_end(s, p);
    if e == p || decimal_value(s, p, e) > u32::MAX {
        None
    } else {
        Some((decimal_value(s, p, e) as u32, e))
    }
}

/// The bounds of `{n}`, `{n,}` or `{n,m}`; `p` is at the `{`.
pub open spec fn p_braces(s: Seq<char>, p: int) -> Option<((u32, Option<u32>), int)> {
    match p_int(s, p + 1) {
        None => None,
        Some((min, q)) => {
            if peek_at(s, q) == Some('}') {
                Some(((min, Some(min)), q + 1))
            } else if peek_at(s, q) == Some(',') {
                if peek_at(s, q + 1) == Some('}') {
                    Some(((min, None), q + 2))
                } else {
                    match p_int(s, q + 1) {
                        None => None,
                        Some((max, r)) => if peek_at(s, r) == Some('}') {
                            Some(((min, Some(max)), r + 1))
                        } else {
                            None
                        },
                    }
                }
            } else {
                None
            }
        },
    }
}

/// What a backslash followed by `c` stands for outside a class.
pub open spec fn escape_model(c: char) -> ReModel {
    if c == 'd' {
        ReModel::Class(false, seq![ClassItem::Digit(true)])
    } else if c == 'D' {
        ReModel::Class(false, seq![ClassItem::Digit(false)])
    } else if c == 'w' {
        ReModel::Class(false, seq![ClassItem::Word(true)])
    } else if c == 'W' {
        ReModel::Class(false, seq![ClassItem::Word(false)])
    } else if c == 's' {
        ReModel::Class(false, seq![ClassItem::Space(true)])
    } else if c == 'S' {
        ReModel::Class(false, seq![ClassItem::Space(false)])
    } else if c == 'b' {
        ReModel::WordBoundary(true)
    } else if c == 'B' {
        ReModel::WordBoundary(false)
    } else if c == 'n' {
        ReModel::Lit('\n')
    } else if c == 't' {
        ReModel::Lit('\t')
    } else if c == 'r' {
        ReModel::Lit('\r')
    } else if c == 'f' {
        ReModel::Lit('\u{c}')
    } else if c == 'v' {
        ReModel::Lit('\u{b}')
    } else if c == '0' {
        ReModel::Lit('\0')
    } else {
        ReModel::Lit(c)
    }
}

/// What a backslash followed by `c` stands for inside a class.
pub open spec fn class_escape_item(c: char) -> ClassItem {
    if c == 'd' {
        ClassItem::Digit(true)
    } else if c == 'D' {
        ClassItem::Digit(false)
    } else if c == 'w' {
        ClassItem::Word(true)
    } else if c == 'W' {
        ClassItem::Word(false)
    } else if c == 's' {
        ClassItem::Space(true)
    } else if c == 'S' {
        ClassItem::Space(false)
    } else if c == 'n' {
        ClassItem::Char('\n')
    } else if c == 't' {
        ClassItem::Char('\t')
    } else if c == 'r' {
        ClassItem::Char('\r')
    } else if c == 'f' {
        ClassItem::Char('\u{c}')
    } else if c == 'v' {
        ClassItem::Char('\u{b}')
    } else if c == 'b' {
        ClassItem::Char('\u{8}')
    } else {
        ClassItem::Char(c)
    }
}

/// The item after a backslash inside a class; `p` is after the backslash.
pub open spec fn p_class_escape(s: Seq<char>, p: int) -> Option<(ClassItem, int)> {
    match peek_at(s, p) {
        None => None,
        Some(c) => Some((class_escape_item(c), p + 1)),
    }
}

/// The upper end of a range inside a class; `p` is after the `-`.
pub open spec fn p_range_end(s: Seq<char>, p: int) -> Option<(char, int)> {
    if peek_at(s, p) == Some('\\') {
        match p_class_escape(s, p + 1) {
            Some((ClassItem::Char(c), q)) => Some((c, q)),
            _ => None,
        }
    } else {
        match peek_at(s, p) {
            None => None,
            Some(c) => Some((c, p + 1)),
        }
    }
}

/// One class member starting at `p`: a plain or escaped character.
pub open spec fn p_class_item(s: Seq<char>, p: int) -> Option<(ClassItem, int)> {
    match peek_at(s, p) {
        None => None,
        Some(c) => if c == '\\' {
            p_class_escape(s, p + 1)
        } else {
            Some((ClassItem::Char(c), p + 1))
        },
    }
}

/// The members of a class up to its `]`, after `acc`; a `]` right at the
/// start (`first`) is a member.
pub open spec fn p_class_items(s: Seq<char>, p: int, acc: Seq<ClassItem>, first: bool) -> Option<(Seq<ClassItem>, int)>
    decreases s.len() - p,
{
    if p < 0 || p >= s.len() {
        None
    } else if s[p] == ']' && !first {
        Some((acc, p + 1))
    } else {
        match p_class_item(s, p) {
            None => None,
            Some((item, q)) => {
                if !(p < q <= s.len()) {
                    None
                } else {
                    match item {
                        ClassItem::Char(lo) => {
                            if peek_at(s, q) == Some('-') && peek_at(s, q + 1) != Some(']') {
                                match p_range_end(s, q + 1) {
                                    None => None,
                                    Some((hi, r)) => if q < r <= s.len() {
                                        p_class_items(s, r, acc.push(ClassItem::Range(lo, hi)), false)
                                    } else {
                                        None
                                    },
                                }
                            } else {
                                p_class_items(s, q, acc.push(item), false)
                            }
                        },
                        _ => p_class_items(s, q, acc.push(item), false),
                    }
                }
            },
        }
    }
}

/// A bracket class; `p` is after the `[`.
pub open spec fn p_class(s: Seq<char>, p: int) -> Option<(ReModel, int)> {
    let negated = peek_at(s, p) == Some('^');
    let start = if negated {
        p + 1
    } else {
        p
    };
    match p_class_items(s, start, Seq::empty(), true) {
        None => None,
        Some((items, q)) => Some((ReModel::Class(negated, items), q)),
    }
}

pub open spec fn mk_concat(nodes: Seq<ReModel>) -> ReModel {
    if nodes.len() == 0 {
        ReModel::Empty
    } else if nodes.len() == 1 {
        nodes[0]
    } else {
        ReModel::Concat(nodes)
    }
}

pub open spec fn mk_alt(alts: Seq<ReModel>) -> ReModel {
    if alts.len() == 1 {
        alts[0]
    } else {
        ReModel::Alt(alts)
    }
}

/// Alternatives separated by `|`.
pub open spec fn p_alt(s: Seq<char>, p: int) -> Option<(ReModel, int)>
    decreases s.len() - p, 4int,
{
    if p < 0 || p > s.len() {
        None
    } else {
        match p_concat(s, p, Seq::empty()) {
            None => None,
            Some((r, q)) => if p <= q <= s.len() {
                p_alt_rest(s, q, seq![r])
            } else {
                None
            },
        }
    }
}

/// Further alternatives after those in `acc`.
pub open spec fn p_alt_rest(s: Seq<char>, p: int, acc: Seq<ReModel>) -> Option<(ReModel, int)>
    decreases s.len() - p, 3int,
{
    if p < 0 || p > s.len() {
        None
    } else if peek_at(s, p) == Some('|') {
        match p_concat(s, p + 1, Seq::empty()) {
            None => None,
            Some((r, q)) => if p < q <= s.len() {
                p_alt_rest(s, q, acc.push(r))
            } else {
                None
            },
        }
    } else {
        Some((mk_alt(acc), p))
    }
}

/// Repeated atoms up to a `|`, a `)` or the end, after those in `acc`.
pub open spec fn p_concat(s: Seq<char>, p: int, acc: Seq<ReModel>) -> Option<(ReModel, int)>
    decreases s.len() - p, 2int,
{
    if p < 0 || p > s.len() {
        None
    } else {
        match peek_at(s, p) {
            Some(c) => if c != '|' && c != ')' {
                match p_repeat(s, p) {
                    None => None,
                    Some((r, q)) => if p < q <= s.len() {
                        p_concat(s, q, acc.push(r))
                    } else {
                        None
                    },
                }
            } else {
                Some((mk_concat(acc), p))
            },
            None => Some((mk_concat(acc), p)),
        }
    }
}

/// The quantifier after an atom: its bounds and the position after them,
/// or `None` where no quantifier follows.
pub open spec fn p_quantifier(s: Seq<char>, p: int) -> Option<((u32, Option<u32>), int)> {
    match peek_at(s, p) {
        Some(c) => if c == '*' {
            Some(((0u32, None), p + 1))
        } else if c == '+' {
            Some(((1u32, None), p + 1))
        } else if c == '?' {
            Some(((0u32, Some(1u32)), p + 1))
        } else if c == '{' {
            p_braces(s, p)
        } else {
            None
        },
        None => None,
    }
}

/// An atom with an optional quantifier, which a `?` makes lazy.
pub open spec fn p_repeat(s: Seq<char>, p: int) -> Option<(ReModel, int)>
    decreases s.len() - p, 1int,
{
    match p_atom(s, p) {
        None => None,
        Some((atom, q)) => match p_quantifier(s, q) {
            None => Some((atom, q)),
            Some(((min, max), r)) => if peek_at(s, r) == Some('?') {
                Some((ReModel::Repeat(Box::new(atom), min, max, false), r + 1))
            } else {
                Some((ReModel::Repeat(Box::new(atom), min, max, true), r))
            },
        },
    }
}

/// A group, a class, an escape, `.`, `^`, `$` or a literal character.
pub open spec fn p_atom(s: Seq<char>, p: int) -> Option<(ReModel, int)>
    decreases s.len() - p, 0int,
{
    if p < 0 || p >= s.len() {
        None
    } else {
        let c = s[p];
        let q = p + 1;
        if c == '(' {
            if peek_at(s, q) == Some('?') && peek_at(s, q + 1) != Some(':') {
                None
            } else {
                let start = if peek_at(s, q) == Some('?') {
                    q + 2
                } else {
                    q
                };
                match p_alt(s, start) {
                    None => None,
                    Some((inner, r)) => if peek_at(s, r) == Some(')') {
                        Some((inner, r + 1))
                    } else {
                        None
                    },
                }
            }
        } else if c == '[' {
            p_class(s, q)
        } else if c == '.' {
            Some((ReModel::Any, q))
        } else if c == '^' {
            Some((ReModel::Start, q))
        } else if c == '$' {
            Some((ReModel::End, q))
        } else if c == '\\' {
            match peek_at(s, q) {
                None => None,
                Some(e) => Some((escape_model(e), q + 1)),
            }
        } else if c == '*' || c == '+' || c == '?' {
            None
        } else {
            Some((ReModel::Lit(c), q))
        }
    }
}

/// The pattern that the whole of `s` spells, if any.
pub open spec fn parse_pattern(s: Seq<char>) -> Option<ReModel> {
    match p_alt(s, 0) {
        Some((r, q)) => if q == s.len() {
            Some(r)
        } else {
            None
        },
        None => None,
    }
}

// ---------------------------------------------------------------------
// The parser

/// The models of a whole sequence of patterns.
pub open spec fn models(v: Seq<Re>) -> Seq<ReModel> {
    Re::view_all(v, v.len() as int)
}

pub proof fn lemma_models_push(v: Seq<Re>, x: Re)
    ensures
        models(v.push(x)) == models(v).push(x.view()),
{
    let n = v.len() as int;
    let w = v.push(x);
    lemma_view_all(v, n);
    lemma_view_all(w, n);
    lemma_view_all(w, n + 1);
    assert(Re::view_all(w, n + 1) == Re::view_all(w, n).push(w[n].view()));
    assert(Re::view_all(w, n) =~= Re::view_all(v, n)) by {
        assert forall|i: int| 0 <= i < n implies Re::view_all(w, n)[i] == Re::view_all(v, n)[i] by {
            assert(w[i] == v[i]);
            assert(Re::view_all(w, n)[i] == w[i].view());
            assert(Re::view_all(v, n)[i] == v[i].view());
        }
    }
    assert(models(w) =~= models(v).push(x.view()));
}

/// A parse result agrees with the grammar: the same pattern and the same
/// position after it, or failure on both sides.
pub open spec fn agrees_re(res: Option<Re>, expected: Option<(ReModel, int)>, pos: usize) -> bool {
    match expected {
        Some((r, q)) => res is Some && res->0@ == r && pos == q,
        None => res is None,
    }
}

pub open spec fn agrees<T>(res: Option<T>, expected: Option<(T, int)>, pos: usize) -> bool {
    match expected {
        Some((v, q)) => res == Some(v) && pos == q,
        None => res is None,
    }
}

/// A cursor over the characters of a pattern.
struct RegexParser {
    src: Vec<char>,
    pos: usize,
}

impl RegexParser {
    /// Parses a whole pattern; trailing characters make it fail.
    fn parse(pattern: &str) -> (res: Option<Re>)
        ensures
            match parse_pattern(pattern@) {
                Some(r) => res is Some && res->0@ == r,
                None => res is None,
            },
    {
        let mut parser = RegexParser { src: crate::text::chars_of(pattern), pos: 0 };
        let node = parser.parse_alt();
        match node {
            None => None,
            Some(node) => if parser.pos != parser.src.len() {
                None
            } else {
                Some(node)
            },
        }
    }

    fn peek(&self) -> (r: Option<char>)
        ensures
            r == peek_at(self.src@, self.pos as int),
    {
        if self.pos < self.src.len() {
            Some(self.src[self.pos])
        } else {
            None
        }
    }

    fn peek_at(&self, offset: usize) -> (r: Option<char>)
        ensures
            r == peek_at(self.src@, self.pos + offset),
    {
        if self.pos < self.src.len() && offset < self.src.len() - self.pos {
            Some(self.src[self.pos + offset])
        } else {
            None
        }
    }

    fn parse_alt(&mut self) -> (res: Option<Re>)
        requires
            old(self).pos <= old(self).src.len(),
        ensures
            final(self).src@ == old(self).src@,
            final(self).pos <= final(self).src.len(),
            res is Some ==> old(self).pos <= final(self).pos,
            agrees_re(res, p_alt(old(self).src@, old(self).pos as int), final(self).pos),
        decreases old(self).src.len() - old(self).pos, 4int,
    {
        let ghost s = self.src@;
        let ghost start = self.pos as int;
        let first = match self.parse_concat() {
            None => return None,
            Some(r) => r,
        };
        let mut alts: Vec<Re> = Vec::new();
        alts.push(first);
        proof {
            lemma_models_push(Seq::<Re>::empty(), first);
            assert(Seq::<Re>::empty().push(first) =~= alts@);
            assert(models(Seq::<Re>::empty()) =~= Seq::<ReModel>::empty());
        }
        while self.peek() == Some('|')
            invariant
                self.src@ == s,
                s == old(self).src@,
                start == old(self).pos,
                start <= self.pos <= self.src.len(),
                p_alt(s, start) == p_alt_rest(s, self.pos as int, models(alts@)),
                alts.len() >= 1,
            decreases self.src.len() - self.pos,
        {
            let ghost before = self.pos as int;
            self.pos += 1;
            let next = match self.parse_concat() {
                None => return None,
                Some(r) => r,
            };
            proof {
                lemma_models_push(alts@, next);
            }
            alts.push(next);
            assert(self.pos > before);
        }
        Some(alt_node(alts))
    }

    fn parse_concat(&mut self) -> (res: Option<Re>)
        requires
            old(self).pos <= old(self).src.len(),
        ensures
            final(self).src@ == old(self).src@,
            final(self).pos <= final(self).src.len(),
            res is Some ==> old(self).pos <= final(self).pos,
            agrees_re(res, p_concat(old(self).src@, old(self).pos as int, Seq::empty()), final(self).pos),
        decreases old(self).src.len() - old(self).pos, 2int,
    {
        let ghost s = self.src@;
        let ghost start = self.pos as int;
        let mut nodes: Vec<Re> = Vec::new();
        proof {
            assert(models(nodes@) =~= Seq::<ReModel>::empty());
        }
        loop
            invariant
                self.src@ == s,
                s == old(self).src@,
                start == old(self).pos,
                start <= self.pos <= self.src.len(),
                p_concat(s, start, Seq::empty()) == p_concat(s, self.pos as int, models(nodes@)),
            ensures
                self.src@ == s,
                start <= self.pos <= self.src.len(),
                p_concat(s, start, Seq::empty()) == Some((mk_concat(models(nodes@)), self.pos as int)),
            decreases self.src.len() - self.pos,
        {
            let c = match self.peek() {
                None => {
                    assert(p_concat(s, self.pos as int, models(nodes@)) == Some((mk_concat(models(nodes@)), self.pos as int)));
                    break;
                },
                Some(c) => c,
            };
            if c == '|' || c == ')' {
                assert(p_concat(s, self.pos as int, models(nodes@)) == Some((mk_concat(models(nodes@)), self.pos as int)));
                break;
            }
            let ghost before = self.pos as int;
            let node = match self.parse_repeat() {
                None => return None,
                Some(r) => r,
            };
            proof {
                lemma_models_push(nodes@, node);
            }
            nodes.push(node);
        }
        Some(concat_node(nodes))
    }

    fn parse_repeat(&mut self) -> (res: Option<Re>)
        requires
            old(self).pos <= old(self).src.len(),
        ensures
            final(self).src@ == old(self).src@,
            final(self).pos <= final(self).src.len(),
            res is Some ==> old(self).pos < final(self).pos,
            agrees_re(res, p_repeat(old(self).src@, old(self).pos as int), final(self).pos),
        decreases old(self).src.len() - old(self).pos, 1int,
    {
        let atom = match self.parse_atom() {
            None => return None,
            Some(a) => a,
        };
        let (min, max) = match self.peek() {
            Some('*') => {
                self.pos += 1;
                (0u32, None)
            },
            Some('+') => {
                self.pos += 1;
                (1u32, None)
            },
            Some('?') => {
                self.pos += 1;
                (0u32, Some(1u32))
            },
            Some('{') => {
                let save = self.pos;
                match self.parse_braces() {
                    Some(bounds) => bounds,
                    None => {
                        self.pos = save;
                        return Some(atom);
                    },
                }
            },
            _ => return Some(atom),
        };
        let greedy = if self.peek() == Some('?') {
            self.pos += 1;
            false
        } else {
            true
        };
        Some(Re::Repeat(Box::new(atom), min, max, greedy))
    }

    fn parse_braces(&mut self) -> (res: Option<(u32, Option<u32>)>)
        requires
            old(self).pos < old(self).src.len(),
        ensures
            final(self).src@ == old(self).src@,
            final(self).pos <= final(self).src.len(),
            res is Some ==> old(self).pos < final(self).pos,
            agrees(res, p_braces(old(self).src@, old(self).pos as int), final(self).pos),
    {
        self.pos += 1;
        let min = match self.parse_int() {
            None => return None,
            Some(v) => v,
        };
        match self.peek() {
            Some('}') => {
                self.pos += 1;
                Some((min, Some(min)))
            },
            Some(',') => {
                self.pos += 1;
                if self.peek() == Some('}') {
                    self.pos += 1;
                    Some((min, None))
                } else {
                    let max = match self.parse_int() {
                        None => return None,
                        Some(v) => v,
                    };
                    if self.peek() != Some('}') {
                        return None;
                    }
                    self.pos += 1;
                    Some((min, Some(max)))
                }
            },
            _ => None,
        }
    }

    fn parse_int(&mut self) -> (res: Option<u32>)
        requires
            old(self).pos <= old(self).src.len(),
        ensures
            final(self).src@ == old(self).src@,
            final(self).pos <= final(self).src.len(),
            res is Some ==> old(self).pos < final(self).pos,
            agrees(res, p_int(old(self).src@, old(self).pos as int), final(self).pos),
    {
        let ghost s = self.src@;
        let start = self.pos;
        let mut value: u32 = 0;
        let mut fits = true;
        while self.pos < self.src.len() && '0' <= self.src[self.pos] && self.src[self.pos] <= '9'
            invariant
                self.src@ == s,
                s == old(self).src@,
                start == old(self).pos,
                start <= self.pos <= self.src.len(),
                digit_run_end(s, start as int) == digit_run_end(s, self.pos as int),
                fits ==> value == decimal_value(s, start as int, self.pos as int),
                !fits ==> decimal_value(s, start as int, self.pos as int) > u32::MAX,
                forall|i: int| start <= i < self.pos ==> is_digit(#[trigger] s[i]),
            decreases self.src.len() - self.pos,
        {
            let d = (self.src[self.pos] as u32) - ('0' as u32);
            let ghost old_pos = self.pos as int;
            proof {
                lemma_decimal_nonneg(s, start as int, old_pos);
            }
            if fits && value <= (u32::MAX - d) / 10 {
                value = value * 10 + d;
            } else {
                fits = false;
            }
            self.pos += 1;
            assert(decimal_value(s, start as int, self.pos as int) == decimal_value(s, start as int, old_pos) * 10 + digit_value(s[old_pos]));
        }
        if self.pos == start || !fits {
            None
        } else {
            Some(value)
        }
    }

    fn parse_atom(&mut self) -> (res: Option<Re>)
        requires
            old(self).pos <= old(self).src.len(),
        ensures
            final(self).src@ == old(self).src@,
            final(self).pos <= final(self).src.len(),
            res is Some ==> old(self).pos < final(self).pos,
            agrees_re(res, p_atom(old(self).src@, old(self).pos as int), final(self).pos),
        decreases old(self).src.len() - old(self).pos, 0int,
    {
        let ghost s = self.src@;
        let ghost p = self.pos as int;
        let current = match self.peek() {
            None => return None,
            Some(c) => c,
        };
        self.pos += 1;
        if current == '(' {
            if self.peek() == Some('?') {
                self.pos += 1;
                if self.peek() == Some(':') {
                    self.pos += 1;
                } else {
                    assert(p_atom(s, p) is None);
                    return None;
                }
            }
            let ghost start = self.pos as int;
            assert(start == if peek_at(s, p + 1) == Some('?') { p + 3 } else { p + 1 });
            let inner = match self.parse_alt() {
                None => {
                    assert(p_alt(s, start) is None);
                    assert(p_atom(s, p) is None);
                    return None;
                },
                Some(r) => r,
            };
            if self.peek() != Some(')') {
                assert(p_atom(s, p) is None);
                return None;
            }
            self.pos += 1;
            assert(p_atom(s, p) == Some((inner@, self.pos as int)));
            Some(inner)
        } else if current == '[' {
            let r = self.parse_class();
            assert(agrees_re(r, p_atom(s, p), self.pos));
            r
        } else if current == '.' {
            assert(p_atom(s, p) == Some((ReModel::Any, p + 1)));
            assert(Re::Any.view() == ReModel::Any);
            let r = Some(Re::Any);
            assert(agrees_re(r, p_atom(s, p), self.pos));
            r
        } else if current == '^' {
            assert(p_atom(s, p) == Some((ReModel::Start, p + 1)));
            Some(Re::Start)
        } else if current == '$' {
            assert(p_atom(s, p) == Some((ReModel::End, p + 1)));
            Some(Re::End)
        } else if current == '\\' {
            let r = self.parse_escape();
            assert(agrees_re(r, p_atom(s, p), self.pos));
            r
        } else if current == '*' || current == '+' || current == '?' {
            assert(p_atom(s, p) is None);
            None
        } else {
            assert(p_atom(s, p) == Some((ReModel::Lit(current), p + 1)));
            Some(lit_node(current))
        }
    }

    fn parse_escape(&mut self) -> (res: Option<Re>)
        requires
            old(self).pos <= old(self).src.len(),
        ensures
            final(self).src@ == old(self).src@,
            final(self).pos <= final(self).src.len(),
            res is Some ==> old(self).pos < final(self).pos,
            agrees_re(
                res,
                match peek_at(old(self).src@, old(self).pos as int) {
                    None => None,
                    Some(e) => Some((escape_model(e), old(self).pos + 1)),
                },
                final(self).pos,
            ),
    {
        let current = match self.peek() {
            None => return None,
            Some(c) => c,
        };
        self.pos += 1;
        Some(escape_node(current))
    }

    fn parse_class_escape(&mut self) -> (res: Option<ClassItem>)
        requires
            old(self).pos <= old(self).src.len(),
        ensures
            final(self).src@ == old(self).src@,
            final(self).pos <= final(self).src.len(),
            res is Some ==> old(self).pos < final(self).pos,
            agrees(res, p_class_escape(old(self).src@, old(self).pos as int), final(self).pos),
    {
        let current = match self.peek() {
            None => return None,
            Some(c) => c,
        };
        self.pos += 1;
        let item = if current == 'd' {
            ClassItem::Digit(true)
        } else if current == 'D' {
            ClassItem::Digit(false)
        } else if current == 'w' {
            ClassItem::Word(true)
        } else if current == 'W' {
            ClassItem::Word(false)
        } else if current == 's' {
            ClassItem::Space(true)
        } else if current == 'S' {
            ClassItem::Space(false)
        } else if current == 'n' {
            ClassItem::Char('\n')
        } else if current == 't' {
            ClassItem::Char('\t')
        } else if current == 'r' {
            ClassItem::Char('\r')
        } else if current == 'f' {
            ClassItem::Char('\u{c}')
        } else if current == 'v' {
            ClassItem::Char('\u{b}')
        } else if current == 'b' {
            ClassItem::Char('\u{8}')
        } else {
            ClassItem::Char(current)
        };
        Some(item)
    }

    fn parse_class(&mut self) -> (res: Option<Re>)
        requires
            old(self).pos <= old(self).src.len(),
        ensures
            final(self).src@ == old(self).src@,
            final(self).pos <= final(self).src.len(),
            res is Some ==> old(self).pos < final(self).pos,
            agrees_re(res, p_class(old(self).src@, old(self).pos as int), final(self).pos),
    {
        let ghost s = self.src@;
        let ghost p0 = self.pos as int;
        let negated = if self.peek() == Some('^') {
            self.pos += 1;
            true
        } else {
            false
        };
        let ghost start = self.pos as int;
        let mut items: Vec<ClassItem> = Vec::new();
        let mut first = true;
        loop
            invariant
                self.src@ == s,
                s == old(self).src@,
                p0 == old(self).pos,
                negated == (peek_at(s, p0) == Some('^')),
                start == if negated { p0 + 1 } else { p0 },
                start <= self.pos <= self.src.len(),
                first ==> self.pos == start && items@ == Seq::<ClassItem>::empty(),
                !first ==> self.pos > start,
                p_class_items(s, start, Seq::empty(), true) == p_class_items(s, self.pos as int, items@, first),
            decreases self.src.len() - self.pos,
        {
            let ghost here = self.pos as int;
            let ghost acc = items@;
            let ghost was_first = first;
            let current = match self.peek() {
                None => return None,
                Some(c) => c,
            };
            if current == ']' && !first {
                self.pos += 1;
                return Some(Re::Class(negated, items));
            }
            first = false;
            let item = if current == '\\' {
                self.pos += 1;
                match self.parse_class_escape() {
                    None => return None,
                    Some(i) => i,
                }
            } else {
                self.pos += 1;
                ClassItem::Char(current)
            };
            assert(p_class_item(s, here) == Some((item, self.pos as int)));
            let ghost q = self.pos as int;
            let mut ranged = false;
            if let ClassItem::Char(lo) = item {
                if self.peek() == Some('-') && self.peek_at(1) != Some(']') {
                    self.pos += 1;
                    let hi = if self.peek() == Some('\\') {
                        self.pos += 1;
                        match self.parse_class_escape() {
                            Some(ClassItem::Char(c)) => c,
                            _ => return None,
                        }
                    } else {
                        let c = match self.peek() {
                            None => return None,
                            Some(c) => c,
                        };
                        self.pos += 1;
                        c
                    };
                    assert(p_range_end(s, q + 1) == Some((hi, self.pos as int)));
                    items.push(ClassItem::Range(lo, hi));
                    assert(items@ == acc.push(ClassItem::Range(lo, hi)));
                    ranged = true;
                }
            }
            if !ranged {
                items.push(item);
                assert(items@ == acc.push(item));
            }
        }
    }
}

/// The concatenation of `nodes`; none is the empty pattern, one is itself.
fn concat_node(nodes: Vec<Re>) -> (node: Re)
    ensures
        node@ == mk_concat(models(nodes@)),
{
    let mut nodes = nodes;
    proof {
        lemma_view_all(nodes@, nodes@.len() as int);
    }
    if nodes.len() == 0 {
        Re::Empty
    } else if nodes.len() == 1 {
        match nodes.pop() {
            Some(node) => node,
            None => Re::Empty,
        }
    } else {
        Re::Concat(nodes)
    }
}

/// The alternation of `alts`; a single alternative is itself.
fn alt_node(alts: Vec<Re>) -> (node: Re)
    requires
        alts.len() >= 1,
    ensures
        node@ == mk_alt(models(alts@)),
{
    let mut alts = alts;
    proof {
        lemma_view_all(alts@, alts@.len() as int);
    }
    if alts.len() == 1 {
        match alts.pop() {
            Some(node) => node,
            None => Re::Empty,
        }
    } else {
        Re::Alt(alts)
    }
}

/// A single literal character.
fn lit_node(c: char) -> (node: Re)
    ensures
        node@ == ReModel::Lit(c),
{
    Re::Lit(c)
}

/// The pattern that a backslash followed by `current` stands for.
fn escape_node(current: char) -> (node: Re)
    ensures
        node@ == escape_model(current),
{
    if current == 'd' || current == 'D' || current == 'w' || current == 'W' || current == 's'
        || current == 'S' {
        let item = if current == 'd' || current == 'D' {
            ClassItem::Digit(current == 'd')
        } else if current == 'w' || current == 'W' {
            ClassItem::Word(current == 'w')
        } else {
            ClassItem::Space(current == 's')
        };
        let items = vec![item];
        assert(items@ =~= seq![item]);
        return Re::Class(false, items);
    }
    if current == 'b' || current == 'B' {
        return Re::WordBoundary(current == 'b');
    }
    let c = if current == 'n' {
        '\n'
    } else if current == 't' {
        '\t'
    } else if current == 'r' {
        '\r'
    } else if current == 'f' {
        '\u{c}'
    } else if current == 'v' {
        '\u{b}'
    } else if current == '0' {
        '\0'
    } else {
        current
    };
    Re::Lit(c)
}

pub proof fn lemma_decimal_nonneg(s: Seq<char>, p: int, e: int)
    requires
        forall|i: int| p <= i < e ==> is_digit(#[trigger] s[i]),
    ensures
        decimal_value(s, p, e) >= 0,
    decreases e - p,
{
    if e > p {
        lemma_decimal_nonneg(s, p, e - 1);
    }
}

/// Parses a pattern.
pub fn compile_regex(pattern: &str) -> (res: Option<Re>)
    ensures
        match parse_pattern(pattern@) {
            Some(r) => res is Some && res->0@ == r,
            None => res is None,
        },
{
    RegexParser::parse(pattern)
}

} // verus!

verus! {

// ---------------------------------------------------------------------
// Global replacement

/// A replacement string with its `$$`, `$&`, `` $` `` and `$'` patterns
/// filled in from the match, the text before it and the text after it.
pub open spec fn expand(repl: Seq<char>, matched: Seq<char>, before: Seq<char>, after: Seq<char>) -> Seq<char>
    decreases repl.len(),
{
    if repl.len() == 0 {
        Seq::empty()
    } else if repl[0] == '$' && repl.len() >= 2 {
        let c = repl[1];
        if c == '$' {
            seq!['$'] + expand(repl.skip(2), matched, before, after)
        } else if c == '&' {
            matched + expand(repl.skip(2), matched, before, after)
        } else if c == '`' {
            before + expand(repl.skip(2), matched, before, after)
        } else if c == '\'' {
            after + expand(repl.skip(2), matched, before, after)
        } else {
            seq!['$'] + expand(repl.skip(1), matched, before, after)
        }
    } else {
        seq![repl[0]] + expand(repl.skip(1), matched, before, after)
    }
}

/// The leftmost match at or after `s`: its start and the first end that
/// the matcher reaches there.
pub open spec fn match_from(r: ReModel, t: Seq<char>, s: int) -> Option<(int, int)>
    decreases t.len() + 1 - s,
{
    if s < 0 || s > t.len() {
        None
    } else if ends(r, t, s).len() > 0 {
        Some((s, ends(r, t, s)[0]))
    } else {
        match_from(r, t, s + 1)
    }
}

/// `t[i..]` with every match replaced, scanning on after each match. After
/// an empty match the scan goes on one character further, and that
/// character is not copied.
pub open spec fn replace_from(r: ReModel, t: Seq<char>, i: int, repl: Seq<char>) -> Seq<char>
    decreases t.len() + 1 - i,
{
    if i < 0 || i > t.len() {
        Seq::empty()
    } else {
        match match_from(r, t, i) {
            None => t.subrange(i, t.len() as int),
            Some((ms, me)) => {
                let next = if me > ms {
                    me
                } else {
                    ms + 1
                };
                t.subrange(i, ms) + expand(repl, t.subrange(ms, me), t.subrange(0, ms), t.subrange(me, t.len() as int))
                    + if i < next <= t.len() + 1 {
                    replace_from(r, t, next, repl)
                } else {
                    Seq::empty()
                }
            },
        }
    }
}

/// Every match of `r` in `t` replaced by `repl`, as a global JavaScript
/// `replace` does.
pub open spec fn replace_all(r: ReModel, t: Seq<char>, repl: Seq<char>) -> Seq<char> {
    replace_from(r, t, 0, repl)
}

pub proof fn lemma_match_from_within(r: ReModel, t: Seq<char>, s: int)
    ensures
        match match_from(r, t, s) {
            Some((ms, me)) => 0 <= s <= ms <= me <= t.len(),
            None => true,
        },
    decreases t.len() + 1 - s,
{
    if !(s < 0 || s > t.len()) {
        if ends(r, t, s).len() > 0 {
            lemma_ends_within(r, t, s);
        } else {
            lemma_match_from_within(r, t, s + 1);
        }
    }
}

/// Appends `text[a..b]` to `out`.
fn push_range(out: &mut Vec<char>, text: &Vec<char>, a: usize, b: usize)
    requires
        a <= b <= text.len(),
    ensures
        final(out)@ == old(out)@ + text@.subrange(a as int, b as int),
{
    let ghost start = out@;
    let mut i = a;
    while i < b
        invariant
            a <= i <= b,
            b <= text.len(),
            out@ == start + text@.subrange(a as int, i as int),
        decreases b - i,
    {
        out.push(text[i]);
        assert(text@.subrange(a as int, i + 1) =~= text@.subrange(a as int, i as int).push(text@[i as int]));
        i += 1;
    }
}

/// The replacement for the match `text[ms..me]`, its `$`-patterns filled in.
pub fn expand_replacement(replacement: &Vec<char>, text: &Vec<char>, ms: usize, me: usize) -> (out: Vec<char>)
    requires
        ms <= me <= text.len(),
    ensures
        out@ == expand(
            replacement@,
            text@.subrange(ms as int, me as int),
            text@.subrange(0, ms as int),
            text@.subrange(me as int, text.len() as int),
        ),
{
    let ghost m = text@.subrange(ms as int, me as int);
    let ghost bf = text@.subrange(0, ms as int);
    let ghost af = text@.subrange(me as int, text.len() as int);
    let ghost r = replacement@;
    let mut out: Vec<char> = Vec::new();
    let mut index: usize = 0;
    assert(r.skip(0) =~= r);
    while index < replacement.len()
        invariant
            index <= replacement.len(),
            r == replacement@,
            ms <= me <= text.len(),
            m == text@.subrange(ms as int, me as int),
            bf == text@.subrange(0, ms as int),
            af == text@.subrange(me as int, text.len() as int),
            expand(r, m, bf, af) == out@ + expand(r.skip(index as int), m, bf, af),
        decreases replacement.len() - index,
    {
        let ghost rest = r.skip(index as int);
        let ghost before_out = out@;
        let ghost mut piece: Seq<char> = Seq::empty();
        if replacement[index] == '$' && index + 1 < replacement.len() {
            let c = replacement[index + 1];
            assert(rest.skip(2) =~= r.skip(index + 2));
            assert(rest.skip(1) =~= r.skip(index + 1));
            if c == '$' {
                out.push('$');
                proof { piece = seq!['$']; }
                index += 2;
            } else if c == '&' {
                push_range(&mut out, text, ms, me);
                proof { piece = m; }
                index += 2;
            } else if c == '`' {
                push_range(&mut out, text, 0, ms);
                proof { piece = bf; }
                index += 2;
            } else if c == '\'' {
                push_range(&mut out, text, me, text.len());
                proof { piece = af; }
                index += 2;
            } else {
                out.push('$');
                proof { piece = seq!['$']; }
                index += 1;
            }
        } else {
            assert(rest.skip(1) =~= r.skip(index + 1));
            out.push(replacement[index]);
            proof { piece = seq![rest[0]]; }
            index += 1;
        }
        assert(out@ =~= before_out + piece);
        assert(expand(rest, m, bf, af) == piece + expand(r.skip(index as int), m, bf, af));
        assert((before_out + piece) + expand(r.skip(index as int), m, bf, af) =~= before_out + (piece + expand(r.skip(index as int), m, bf, af)));
        assert(out@ + expand(r.skip(index as int), m, bf, af) =~= before_out + expand(rest, m, bf, af));
    }
    assert(r.skip(index as int) =~= Seq::<char>::empty());
    assert(out@ =~= out@ + Seq::<char>::empty());
    out
}

/// Replaces every match of `pattern` in `text`.
pub fn regex_replace_global(pattern: &Re, text: &Vec<char>, replacement: &Vec<char>) -> (out: Vec<char>)
    ensures
        out@ == replace_all(pattern@, text@, replacement@),
{
    let ghost r = pattern@;
    let ghost t = text@;
    let mut out: Vec<char> = Vec::new();
    let mut index: usize = 0;
    loop
        invariant
            r == pattern@,
            t == text@,
            index <= text.len(),
            replace_all(r, t, replacement@) == out@ + replace_from(r, t, index as int, replacement@),
        decreases text.len() - index,
    {
        let mut found: Option<(usize, usize)> = None;
        let mut start = index;
        loop
            invariant_except_break
                found is None,
            invariant
                r == pattern@,
                t == text@,
                index <= start <= text.len(),
                match_from(r, t, index as int) == match_from(r, t, start as int),
            ensures
                match found {
                    Some((ms, me)) => match_from(r, t, index as int) == Some((ms as int, me as int)),
                    None => match_from(r, t, index as int) is None,
                },
            decreases text.len() - start,
        {
            let ends_here = re_match(pattern, text, start);
            if ends_here.len() > 0 {
                assert(positions(ends_here@)[0] == ends_here@[0] as int);
                found = Some((start, ends_here[0]));
                break;
            }
            if start == text.len() {
                assert(match_from(r, t, start + 1) is None);
                break;
            }
            start += 1;
        }
        proof {
            lemma_match_from_within(r, t, index as int);
        }
        match found {
            None => {
                push_range(&mut out, text, index, text.len());
                return out;
            },
            Some((match_start, match_end)) => {
                let ghost prev = out@;
                push_range(&mut out, text, index, match_start);
                let expanded = expand_replacement(replacement, text, match_start, match_end);
                let mut expanded = expanded;
                out.append(&mut expanded);
                if match_end > match_start {
                    index = match_end;
                } else if match_start < text.len() {
                    index = match_start + 1;
                } else {
                    assert(replace_from(r, t, match_start + 1, replacement@) =~= Seq::<char>::empty());
                    assert(out@ =~= out@ + Seq::<char>::empty());
                    return out;
                }
            },
        }
    }
}

proof fn lemma_no_match_from(r: ReModel, t: Seq<char>, s: int)
    requires
        forall|p: int| 0 <= p <= t.len() ==> #[trigger] ends(r, t, p).len() == 0,
    ensures
        match_from(r, t, s) is None,
    decreases t.len() + 1 - s,
{
    if 0 <= s <= t.len() {
        assert(ends(r, t, s).len() == 0);
        lemma_no_match_from(r, t, s + 1);
    }
}

/// A pattern that matches nowhere in `t` leaves `t` unchanged.
pub proof fn law_replace_without_match(r: ReModel, t: Seq<char>, repl: Seq<char>)
    requires
        forall|p: int| 0 <= p <= t.len() ==> #[trigger] ends(r, t, p).len() == 0,
    ensures
        replace_all(r, t, repl) == t,
{
    lemma_no_match_from(r, t, 0);
    assert(t.subrange(0, t.len() as int) =~= t);
}

// ---------------------------------------------------------------------
// Whole-word patterns

/// The pattern that matches `name` as a whole word.
pub open spec fn word_pattern(name: Seq<char>) -> Seq<char> {
    seq!['\\', 'b'] + name + seq!['\\', 'b']
}

/// Whether every character of `name` is a word character.
pub open spec fn is_identifier(name: Seq<char>) -> bool {
    forall|i: int| 0 <= i < name.len() ==> is_word(#[trigger] name[i])
}

/// The literals of `name` from index `j` on.
pub open spec fn lits_from(name: Seq<char>, j: int) -> Seq<ReModel>
    decreases name.len() - j,
{
    if j < 0 || j >= name.len() {
        Seq::empty()
    } else {
        seq![ReModel::Lit(name[j])] + lits_from(name, j + 1)
    }
}

/// The character at `i`, taken as a value of its type (a character from a
/// sequence is then known to be a valid `char`).
proof fn char_at(s: Seq<char>, i: int) -> (c: char)
    requires
        0 <= i < s.len(),
    ensures
        c == s[i],
{
    s[i]
}

proof fn lemma_single<A>(x: A, rest: Seq<A>)
    ensures
        seq![x].len() == 1,
        seq![x][0] == x,
        (seq![x] + rest).len() == rest.len() + 1,
        (seq![x] + rest)[0] == x,
        forall|i: int| 0 < i <= rest.len() ==> #[trigger] (seq![x] + rest)[i] == rest[i - 1],
{
}

proof fn lemma_lits_from(name: Seq<char>, j: int)
    requires
        0 <= j <= name.len(),
    ensures
        lits_from(name, j).len() == name.len() - j,
        forall|i: int| 0 <= i < name.len() - j ==> #[trigger] lits_from(name, j)[i] == ReModel::Lit(name[j + i]),
    decreases name.len() - j,
{
    if j < name.len() {
        lemma_lits_from(name, j + 1);
        let c = char_at(name, j);
        lemma_single(ReModel::Lit(c), lits_from(name, j + 1));
        let head = seq![ReModel::Lit(c)];
        assert(lits_from(name, j) == head + lits_from(name, j + 1));
        assert forall|i: int| 0 <= i < name.len() - j implies #[trigger] lits_from(name, j)[i] == ReModel::Lit(
            name[j + i],
        ) by {
            let d = char_at(name, j + i);
            if i > 0 {
                assert((head + lits_from(name, j + 1))[i] == lits_from(name, j + 1)[i - 1]);
            } else {
                assert((head + lits_from(name, j + 1))[0] == head[0]);
            }
        }
    }
}

/// The parts of the whole-word pattern of an identifier: a boundary, its
/// characters, a boundary.
pub open spec fn word_nodes(name: Seq<char>) -> Seq<ReModel> {
    seq![ReModel::WordBoundary(true)] + lits_from(name, 0) + seq![ReModel::WordBoundary(true)]
}

/// Whether position `q` of `t` lies between a word character and a
/// character that is not one (or the text's edge).
pub open spec fn is_boundary(t: Seq<char>, q: int) -> bool {
    at_word(t, q - 1) != at_word(t, q)
}

/// Whether `name` occurs in `t` at `p` as a whole word.
pub open spec fn whole_word_at(t: Seq<char>, name: Seq<char>, p: int) -> bool {
    &&& p + name.len() <= t.len()
    &&& t.subrange(p, p + name.len()) == name
    &&& is_boundary(t, p)
    &&& is_boundary(t, p + name.len())
}

proof fn lemma_parse_lits(name: Seq<char>, j: int, acc: Seq<ReModel>)
    requires
        is_identifier(name),
        0 <= j <= name.len(),
    ensures
        p_concat(word_pattern(name), 2 + j, acc) == p_concat(
            word_pattern(name),
            2 + name.len() as int,
            acc + lits_from(name, j),
        ),
    decreases name.len() - j,
{
    broadcast use vstd::seq::group_seq_axioms;

    let s = word_pattern(name);
    if j < name.len() {
        let c = name[j];
        assert(s[2 + j] == c);
        assert(is_word(c));
        assert(p_atom(s, 2 + j) == Some((ReModel::Lit(c), 3 + j)));
        if j + 1 < name.len() {
            assert(s[3 + j] == name[j + 1]);
            assert(is_word(name[j + 1]));
        } else {
            assert(s[3 + j] == '\\');
        }
        assert(p_quantifier(s, 3 + j) is None);
        assert(p_repeat(s, 2 + j) == Some((ReModel::Lit(c), 3 + j)));
        lemma_parse_lits(name, j + 1, acc.push(ReModel::Lit(c)));
        assert(acc.push(ReModel::Lit(c)) + lits_from(name, j + 1) =~= acc + lits_from(name, j));
    } else {
        assert(lits_from(name, j) =~= Seq::<ReModel>::empty());
        assert(acc + lits_from(name, j) =~= acc);
    }
}

proof fn lemma_word_pattern_parses(name: Seq<char>)
    requires
        is_identifier(name),
    ensures
        parse_pattern(word_pattern(name)) == Some(ReModel::Concat(word_nodes(name))),
{
    broadcast use vstd::seq::group_seq_axioms;

    let s = word_pattern(name);
    let n = name.len() as int;
    let wb = ReModel::WordBoundary(true);
    assert(s.len() == n + 4);
    assert(s[0] == '\\' && s[1] == 'b');
    assert(p_atom(s, 0) == Some((wb, 2int)));
    if n > 0 {
        assert(s[2] == name[0]);
        assert(is_word(name[0]));
    } else {
        assert(s[2] == '\\');
    }
    assert(p_quantifier(s, 2) is None);
    assert(p_repeat(s, 0) == Some((wb, 2int)));
    lemma_parse_lits(name, 0, seq![wb]);
    assert(s[2 + n] == '\\' && s[3 + n] == 'b');
    assert(p_atom(s, 2 + n) == Some((wb, 4 + n)));
    assert(p_quantifier(s, 4 + n) is None);
    assert(p_repeat(s, 2 + n) == Some((wb, 4 + n)));
    let nodes = seq![wb] + lits_from(name, 0) + seq![wb];
    assert((seq![wb] + lits_from(name, 0)).push(wb) =~= nodes);
    assert(p_concat(s, 4 + n, nodes) == Some((mk_concat(nodes), 4 + n)));
    assert(p_concat(s, 0, Seq::empty()) == Some((ReModel::Concat(nodes), 4 + n)));
    assert(p_alt_rest(s, 4 + n, seq![ReModel::Concat(nodes)]) == Some((ReModel::Concat(nodes), 4 + n)));
}

proof fn lemma_concat_from_nothing(nodes: Seq<ReModel>, k: int, t: Seq<char>)
    ensures
        concat_ends(nodes, k, t, Seq::empty()) == Seq::<int>::empty(),
    decreases nodes.len() - k,
{
    if 0 <= k < nodes.len() {
        assert(flat_ends(nodes[k], t, Seq::empty()) == Seq::<int>::empty());
        lemma_concat_from_nothing(nodes, k + 1, t);
    }
}

proof fn lemma_flat_single(r: ReModel, t: Seq<char>, q: int)
    ensures
        flat_ends(r, t, seq![q]) == ends(r, t, q),
{
    assert(seq![q].drop_first() =~= Seq::<int>::empty());
    assert(flat_ends(r, t, Seq::<int>::empty()) == Seq::<int>::empty());
    assert(ends(r, t, q) + Seq::<int>::empty() =~= ends(r, t, q));
}

proof fn lemma_match_lits(name: Seq<char>, t: Seq<char>, k: int, q: int)
    requires
        1 <= k <= name.len() + 1,
        0 <= q <= t.len(),
    ensures
        concat_ends(word_nodes(name), k, t, seq![q]) == if q + (name.len() + 1 - k) <= t.len()
            && t.subrange(q, q + (name.len() + 1 - k)) == name.subrange(k - 1, name.len() as int)
            && is_boundary(t, q + (name.len() + 1 - k)) {
            seq![q + (name.len() + 1 - k)]
        } else {
            Seq::<int>::empty()
        },
    decreases name.len() + 1 - k,
{
    broadcast use vstd::seq::group_seq_axioms;

    let nodes = word_nodes(name);
    let n = name.len() as int;
    let m = n + 1 - k;
    lemma_lits_from(name, 0);
    assert(nodes.len() == n + 2);
    lemma_flat_single(nodes[k], t, q);
    if k == n + 1 {
        assert(nodes[k] == ReModel::WordBoundary(true));
        assert(t.subrange(q, q) =~= name.subrange(n, n));
        let e = step_end(is_boundary(t, q), q);
        assert(concat_ends(nodes, k + 1, t, e) == e);
    } else {
        assert(nodes[k] == ReModel::Lit(name[k - 1]));
        let ok = 0 <= q < t.len() && t[q] == name[k - 1];
        if ok {
            lemma_match_lits(name, t, k + 1, q + 1);
            if q + m <= t.len() {
                assert(t.subrange(q, q + m) == name.subrange(k - 1, n) <==> t.subrange(q + 1, q + m)
                    == name.subrange(k, n)) by {
                    if t.subrange(q + 1, q + m) == name.subrange(k, n) {
                        assert(t.subrange(q, q + m) =~= name.subrange(k - 1, n)) by {
                            assert forall|i: int| 0 <= i < m implies #[trigger] t.subrange(q, q + m)[i] == name.subrange(
                                k - 1,
                                n,
                            )[i] by {
                                if i > 0 {
                                    assert(t.subrange(q + 1, q + m)[i - 1] == name.subrange(k, n)[i - 1]);
                                }
                            }
                        }
                    }
                    if t.subrange(q, q + m) == name.subrange(k - 1, n) {
                        assert(t.subrange(q + 1, q + m) =~= name.subrange(k, n)) by {
                            assert forall|i: int| 0 <= i < m - 1 implies #[trigger] t.subrange(q + 1, q + m)[i]
                                == name.subrange(k, n)[i] by {
                                assert(t.subrange(q, q + m)[i + 1] == name.subrange(k - 1, n)[i + 1]);
                            }
                        }
                    }
                }
            }
        } else {
            lemma_concat_from_nothing(nodes, k + 1, t);
            if q + m <= t.len() && t.subrange(q, q + m) == name.subrange(k - 1, n) {
                assert(t.subrange(q, q + m)[0] == name.subrange(k - 1, n)[0]);
            }
        }
    }
}

/// A name made of word characters, used as a pattern between `\b`s,
/// matches at `p` exactly where it occurs in `t` as a whole word, and then
/// ends right after it.
pub proof fn law_identifier_matches_whole_word(name: Seq<char>, t: Seq<char>, p: int)
    requires
        is_identifier(name),
        0 <= p <= t.len(),
    ensures
        parse_pattern(word_pattern(name)) == Some(ReModel::Concat(word_nodes(name))),
        ends(ReModel::Concat(word_nodes(name)), t, p) == if whole_word_at(t, name, p) {
            seq![p + name.len()]
        } else {
            Seq::<int>::empty()
        },
{
    broadcast use vstd::seq::group_seq_axioms;

    lemma_word_pattern_parses(name);
    let nodes = word_nodes(name);
    lemma_flat_single(nodes[0], t, p);
    assert(nodes[0] == ReModel::WordBoundary(true));
    if is_boundary(t, p) {
        lemma_match_lits(name, t, 1, p);
        assert(name.subrange(0, name.len() as int) =~= name);
    } else {
        lemma_concat_from_nothing(nodes, 1, t);
    }
}

} // verus!
