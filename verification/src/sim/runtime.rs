//! Substitution of variable values into expressions, the JSON text that a
//! string value is substituted as, and the fixed sensor readings.
use vstd::prelude::*;

use crate::sim::expr::{digit_value_in, escaped_char, hex_escape, next_code, string_body, unicode_escape};
use crate::sim::regex::{
    compile_regex,
    parse_pattern,
    peek_at,
    regex_replace_global,
    replace_all,
    word_pattern,
};
use crate::text::char_with_code;
use crate::text::{chars_of, string_of};
use vstd::utf8::encode_utf8;

verus! {

broadcast use vstd::string::group_string_axioms;

// ---------------------------------------------------------------------
// The order in which names are substituted

/// A binding as the substitution sees it: the name and the text of its value.
pub open spec fn pair_views(v: Seq<(String, String)>) -> Seq<(Seq<char>, Seq<char>)> {
    Seq::new(v.len(), |i: int| (v[i].0@, v[i].1@))
}

/// Strict lexicographic order of byte strings, the order of `str::cmp`.
pub open spec fn bytes_lt(a: Seq<u8>, b: Seq<u8>) -> bool
    decreases a.len(),
{
    if b.len() == 0 {
        false
    } else if a.len() == 0 {
        true
    } else if a[0] != b[0] {
        a[0] < b[0]
    } else {
        bytes_lt(a.drop_first(), b.drop_first())
    }
}

/// Whether name `a` is substituted before name `b`: longer names (in UTF-8
/// bytes) first, names of equal length in byte order.
pub open spec fn name_before(a: Seq<char>, b: Seq<char>) -> bool {
    let (x, y) = (encode_utf8(a), encode_utf8(b));
    x.len() > y.len() || (x.len() == y.len() && bytes_lt(x, y))
}

/// `s` with `x` inserted before the first binding whose name comes after it.
pub open spec fn insert_by_name(x: (Seq<char>, Seq<char>), s: Seq<(Seq<char>, Seq<char>)>) -> Seq<
    (Seq<char>, Seq<char>),
>
    decreases s.len(),
{
    if s.len() == 0 {
        seq![x]
    } else if name_before(x.0, s[0].0) {
        seq![x] + s
    } else {
        seq![s[0]] + insert_by_name(x, s.drop_first())
    }
}

/// The bindings in substitution order (a stable sort by `name_before`).
pub open spec fn order_by_name(s: Seq<(Seq<char>, Seq<char>)>) -> Seq<(Seq<char>, Seq<char>)>
    decreases s.len(),
{
    if s.len() == 0 {
        Seq::empty()
    } else {
        insert_by_name(s.last(), order_by_name(s.drop_last()))
    }
}

/// Each binding of `order` substituted into `t` in turn; `None` as soon as
/// a name does not form a valid pattern.
pub open spec fn replace_each(t: Seq<char>, order: Seq<(Seq<char>, Seq<char>)>) -> Option<
    Seq<char>,
>
    decreases order.len(),
{
    if order.len() == 0 {
        Some(t)
    } else {
        match parse_pattern(word_pattern(order[0].0)) {
            None => None,
            Some(r) => replace_each(replace_all(r, t, order[0].1), order.drop_first()),
        }
    }
}

/// `expr` with every binding substituted, longest names first; empty when
/// some name is not a valid pattern.
pub open spec fn substituted(expr: Seq<char>, vars: Seq<(Seq<char>, Seq<char>)>) -> Seq<char> {
    match replace_each(expr, order_by_name(vars)) {
        Some(t) => t,
        None => Seq::empty(),
    }
}

proof fn lemma_bytes_lt_skip(a: Seq<u8>, b: Seq<u8>, i: int)
    requires
        0 <= i <= a.len(),
        i <= b.len(),
        a.take(i) == b.take(i),
    ensures
        bytes_lt(a, b) == bytes_lt(a.skip(i), b.skip(i)),
    decreases i,
{
    if i > 0 {
        assert(a[0] == a.take(i)[0]);
        assert(b[0] == b.take(i)[0]);
        assert(a.drop_first().take(i - 1) =~= a.take(i).drop_first());
        assert(b.drop_first().take(i - 1) =~= b.take(i).drop_first());
        lemma_bytes_lt_skip(a.drop_first(), b.drop_first(), i - 1);
        assert(a.drop_first().skip(i - 1) =~= a.skip(i));
        assert(b.drop_first().skip(i - 1) =~= b.skip(i));
    } else {
        assert(a.skip(0) =~= a);
        assert(b.skip(0) =~= b);
    }
}

/// Whether the name of `a` is substituted before the name of `b`.
fn name_before_exec(a: &String, b: &String) -> (r: bool)
    ensures
        r == name_before(a@, b@),
{
    let x = a.as_str().as_bytes();
    let y = b.as_str().as_bytes();
    let ghost xs = encode_utf8(a@);
    let ghost ys = encode_utf8(b@);
    assert(x@ == xs);
    assert(y@ == ys);
    if x.len() != y.len() {
        return x.len() > y.len();
    }
    let mut i: usize = 0;
    while i < x.len()
        invariant
            x@ == xs,
            y@ == ys,
            xs == encode_utf8(a@),
            ys == encode_utf8(b@),
            x.len() == y.len(),
            i <= x.len(),
            xs.take(i as int) == ys.take(i as int),
        decreases x.len() - i,
    {
        if x[i] != y[i] {
            proof {
                lemma_bytes_lt_skip(xs, ys, i as int);
                assert(xs.skip(i as int)[0] == xs[i as int]);
                assert(ys.skip(i as int)[0] == ys[i as int]);
            }
            return x[i] < y[i];
        }
        assert(xs.take(i + 1) =~= xs.take(i as int).push(xs[i as int]));
        assert(ys.take(i + 1) =~= ys.take(i as int).push(ys[i as int]));
        i += 1;
    }
    proof {
        lemma_bytes_lt_skip(xs, ys, i as int);
    }
    false
}

proof fn lemma_insert_at(x: (Seq<char>, Seq<char>), s: Seq<(Seq<char>, Seq<char>)>, j: int)
    requires
        0 <= j <= s.len(),
        forall|k: int| 0 <= k < j ==> !name_before(x.0, #[trigger] s[k].0),
        j < s.len() ==> name_before(x.0, s[j].0),
    ensures
        insert_by_name(x, s) == s.take(j) + seq![x] + s.skip(j),
    decreases j,
{
    if j == 0 {
        assert(s.skip(0) =~= s);
        assert(s.take(0) =~= Seq::<(Seq<char>, Seq<char>)>::empty());
        if s.len() == 0 {
            assert(insert_by_name(x, s) =~= seq![x]);
        }
        assert(s.take(j) + seq![x] + s.skip(j) =~= seq![x] + s);
    } else {
        let t = s.drop_first();
        assert(!name_before(x.0, s[0].0));
        assert forall|k: int| 0 <= k < j - 1 implies !name_before(x.0, #[trigger] t[k].0) by {
            assert(t[k] == s[k + 1]);
        }
        if j - 1 < t.len() {
            assert(t[j - 1] == s[j]);
        }
        lemma_insert_at(x, t, j - 1);
        assert(s.take(j) =~= seq![s[0]] + t.take(j - 1));
        assert(s.skip(j) =~= t.skip(j - 1));
        assert(insert_by_name(x, s) == seq![s[0]] + insert_by_name(x, t));
        assert(seq![s[0]] + (t.take(j - 1) + seq![x] + t.skip(j - 1)) =~= s.take(j) + seq![x]
            + s.skip(j));
    }
}

/// The bindings, copied, in substitution order.
fn order_bindings(vars: &Vec<(String, String)>) -> (sorted: Vec<(String, String)>)
    ensures
        pair_views(sorted@) == order_by_name(pair_views(vars@)),
{
    let ghost all = pair_views(vars@);
    let mut sorted: Vec<(String, String)> = Vec::new();
    let mut i: usize = 0;
    assert(all.take(0) =~= Seq::<(Seq<char>, Seq<char>)>::empty());
    assert(pair_views(sorted@) =~= Seq::<(Seq<char>, Seq<char>)>::empty());
    while i < vars.len()
        invariant
            i <= vars.len(),
            all == pair_views(vars@),
            pair_views(sorted@) == order_by_name(all.take(i as int)),
        decreases vars.len() - i,
    {
        let x = (vars[i].0.clone(), vars[i].1.clone());
        let ghost xv = (x.0@, x.1@);
        assert(xv == all[i as int]);
        let mut j: usize = 0;
        while j < sorted.len()
            invariant
                j <= sorted.len(),
                x.0@ == xv.0,
                forall|k: int| 0 <= k < j ==> !name_before(xv.0, #[trigger] sorted@[k].0@),
            ensures
                j <= sorted.len(),
                forall|k: int| 0 <= k < j ==> !name_before(xv.0, #[trigger] sorted@[k].0@),
                j < sorted.len() ==> name_before(xv.0, sorted@[j as int].0@),
            decreases sorted.len() - j,
        {
            if name_before_exec(&x.0, &sorted[j].0) {
                break;
            }
            j += 1;
        }
        let ghost before = pair_views(sorted@);
        proof {
            assert forall|k: int| 0 <= k < j implies !name_before(xv.0, #[trigger] before[k].0) by {
                assert(before[k].0 == sorted@[k].0@);
            }
            if j < sorted.len() {
                assert(before[j as int].0 == sorted@[j as int].0@);
            }
            lemma_insert_at(xv, before, j as int);
        }
        sorted.insert(j, x);
        assert(pair_views(sorted@) =~= before.take(j as int) + seq![xv] + before.skip(j as int));
        assert(all.take(i + 1).drop_last() =~= all.take(i as int));
        assert(all.take(i + 1).last() == xv);
        i += 1;
    }
    assert(all.take(vars.len() as int) =~= all);
    sorted
}

/// Whether the names of `s` come in substitution order.
pub open spec fn sorted_by_name(s: Seq<(Seq<char>, Seq<char>)>) -> bool {
    forall|i: int, j: int| 0 <= i < j < s.len() ==> !name_before(#[trigger] s[j].0, #[trigger] s[i].0)
}

proof fn lemma_bytes_lt_irreflexive(a: Seq<u8>)
    ensures
        !bytes_lt(a, a),
    decreases a.len(),
{
    if a.len() > 0 {
        lemma_bytes_lt_irreflexive(a.drop_first());
    }
}

proof fn lemma_bytes_lt_transitive(a: Seq<u8>, b: Seq<u8>, c: Seq<u8>)
    requires
        bytes_lt(a, b),
        bytes_lt(b, c),
    ensures
        bytes_lt(a, c),
    decreases a.len(),
{
    if a.len() > 0 && a[0] == b[0] && b[0] == c[0] {
        lemma_bytes_lt_transitive(a.drop_first(), b.drop_first(), c.drop_first());
    }
}

proof fn lemma_name_before_irreflexive(a: Seq<char>)
    ensures
        !name_before(a, a),
{
    lemma_bytes_lt_irreflexive(encode_utf8(a));
}

proof fn lemma_name_before_transitive(a: Seq<char>, b: Seq<char>, c: Seq<char>)
    requires
        name_before(a, b),
        name_before(b, c),
    ensures
        name_before(a, c),
{
    let (x, y, z) = (encode_utf8(a), encode_utf8(b), encode_utf8(c));
    if x.len() == y.len() && y.len() == z.len() {
        lemma_bytes_lt_transitive(x, y, z);
    }
}

proof fn lemma_insert_sorted(x: (Seq<char>, Seq<char>), s: Seq<(Seq<char>, Seq<char>)>)
    requires
        sorted_by_name(s),
    ensures
        sorted_by_name(insert_by_name(x, s)),
        insert_by_name(x, s).to_multiset() == s.to_multiset().insert(x),
    decreases s.len(),
{
    broadcast use vstd::seq_lib::group_to_multiset_ensures;
    broadcast use vstd::multiset::group_multiset_axioms;

    let r = insert_by_name(x, s);
    if s.len() == 0 {
        assert(r =~= seq![x]);
        assert(seq![x] =~= Seq::<(Seq<char>, Seq<char>)>::empty().push(x));
        assert(s =~= Seq::<(Seq<char>, Seq<char>)>::empty());
    } else if name_before(x.0, s[0].0) {
        vstd::seq_lib::lemma_multiset_commutative(seq![x], s);
        assert(seq![x] =~= Seq::<(Seq<char>, Seq<char>)>::empty().push(x));
        assert(seq![x].to_multiset() =~= vstd::multiset::Multiset::<(Seq<char>, Seq<char>)>::empty().insert(x));
        assert forall|i: int, j: int| 0 <= i < j < r.len() implies !name_before(#[trigger] r[j].0, #[trigger] r[i].0) by {
            if i == 0 {
                assert(r[j] == s[j - 1]);
                if name_before(s[j - 1].0, x.0) {
                    lemma_name_before_transitive(s[j - 1].0, x.0, s[0].0);
                    if j - 1 == 0 {
                        lemma_name_before_irreflexive(s[0].0);
                    } else {
                        assert(!name_before(s[j - 1].0, s[0].0));
                    }
                }
            } else {
                assert(r[i] == s[i - 1]);
                assert(r[j] == s[j - 1]);
            }
        }
    } else {
        let t = s.drop_first();
        assert(sorted_by_name(t)) by {
            assert forall|i: int, j: int| 0 <= i < j < t.len() implies !name_before(#[trigger] t[j].0, #[trigger] t[i].0) by {
                assert(t[i] == s[i + 1]);
                assert(t[j] == s[j + 1]);
            }
        }
        lemma_insert_sorted(x, t);
        let u = insert_by_name(x, t);
        assert(r == seq![s[0]] + u);
        vstd::seq_lib::lemma_multiset_commutative(seq![s[0]], u);
        vstd::seq_lib::lemma_multiset_commutative(seq![s[0]], t);
        assert(seq![s[0]] + t =~= s);
        assert forall|i: int, j: int| 0 <= i < j < r.len() implies !name_before(#[trigger] r[j].0, #[trigger] r[i].0) by {
            if i == 0 {
                let e = r[j];
                assert(e == u[j - 1]);
                assert(u.to_multiset().count(e) > 0);
                if e != x {
                    assert(t.to_multiset().count(e) > 0);
                    assert(t.contains(e));
                    let k = choose|k: int| 0 <= k < t.len() && t[k] == e;
                    assert(s[k + 1] == e);
                }
            } else {
                assert(r[i] == u[i - 1]);
                assert(r[j] == u[j - 1]);
            }
        }
    }
}

/// Names are substituted longest first (in UTF-8 bytes), names of equal
/// length in byte order, and every binding is substituted exactly once:
/// the substitution order is sorted by `name_before` and holds the same
/// bindings as the input.
pub proof fn law_substitution_order(vars: Seq<(Seq<char>, Seq<char>)>)
    ensures
        sorted_by_name(order_by_name(vars)),
        forall|i: int, j: int|
            0 <= i < j < order_by_name(vars).len() ==> encode_utf8(#[trigger] order_by_name(vars)[i].0).len()
                >= encode_utf8(#[trigger] order_by_name(vars)[j].0).len(),
        order_by_name(vars).to_multiset() == vars.to_multiset(),
    decreases vars.len(),
{
    broadcast use vstd::seq_lib::group_to_multiset_ensures;

    if vars.len() > 0 {
        law_substitution_order(vars.drop_last());
        lemma_insert_sorted(vars.last(), order_by_name(vars.drop_last()));
        assert(vars.drop_last().push(vars.last()) =~= vars);
    } else {
        assert(vars.to_multiset() =~= vstd::multiset::Multiset::<(Seq<char>, Seq<char>)>::empty());
    }
    let o = order_by_name(vars);
    assert forall|i: int, j: int| 0 <= i < j < o.len() implies encode_utf8(#[trigger] o[i].0).len() >= encode_utf8(
        #[trigger] o[j].0,
    ).len() by {
        assert(!name_before(o[j].0, o[i].0));
    }
}

/// No two bindings of `vars` give one name different values, as with the
/// map of a plan's variables.
pub open spec fn one_value_per_name(vars: Seq<(Seq<char>, Seq<char>)>) -> bool {
    forall|i: int, j: int|
        0 <= i < vars.len() && 0 <= j < vars.len() && #[trigger] vars[i].0 == #[trigger] vars[j].0
            ==> vars[i] == vars[j]
}

proof fn lemma_bytes_lt_total(a: Seq<u8>, b: Seq<u8>)
    requires
        a != b,
    ensures
        bytes_lt(a, b) || bytes_lt(b, a),
    decreases a.len(),
{
    if a.len() == 0 && b.len() == 0 {
        assert(a =~= b);
    } else if a.len() > 0 && b.len() > 0 && a[0] == b[0] {
        if a.drop_first() == b.drop_first() {
            assert(a.drop_first().len() == b.drop_first().len());
            assert(a.len() == b.len());
            assert(a =~= b) by {
                assert forall|i: int| 0 <= i < a.len() implies a[i] == b[i] by {
                    if i > 0 {
                        assert(a[i] == a.drop_first()[i - 1]);
                        assert(b[i] == b.drop_first()[i - 1]);
                    }
                }
            }
        }
        lemma_bytes_lt_total(a.drop_first(), b.drop_first());
    }
}

proof fn lemma_name_before_total(x: Seq<char>, y: Seq<char>)
    requires
        x != y,
    ensures
        name_before(x, y) || name_before(y, x),
{
    vstd::utf8::encode_utf8_decode_utf8(x);
    vstd::utf8::encode_utf8_decode_utf8(y);
    let (a, b) = (encode_utf8(x), encode_utf8(y));
    if a.len() == b.len() {
        lemma_bytes_lt_total(a, b);
    }
}

/// Two sorted orders of the same bindings, where no name has two values,
/// are the same.
proof fn lemma_sorted_unique(a: Seq<(Seq<char>, Seq<char>)>, b: Seq<(Seq<char>, Seq<char>)>)
    requires
        sorted_by_name(a),
        sorted_by_name(b),
        a.to_multiset() == b.to_multiset(),
        one_value_per_name(a),
    ensures
        a == b,
    decreases a.len(),
{
    broadcast use vstd::seq_lib::group_to_multiset_ensures;
    broadcast use vstd::multiset::group_multiset_axioms;

    vstd::seq_lib::to_multiset_len(a);
    vstd::seq_lib::to_multiset_len(b);
    if a.len() == 0 {
        assert(a =~= b);
    } else {
        assert(b.to_multiset().count(b[0]) > 0);
        assert(a.contains(b[0]));
        let m = choose|m: int| 0 <= m < a.len() && a[m] == b[0];
        assert(a.to_multiset().count(a[0]) > 0);
        assert(b.contains(a[0]));
        let k = choose|k: int| 0 <= k < b.len() && b[k] == a[0];
        if a[0] != b[0] {
            assert(a[m] != a[0]);
            assert(a[m].0 != a[0].0);
            lemma_name_before_total(a[0].0, a[m].0);
            assert(m != 0 && k != 0);
            assert(!name_before(a[m].0, a[0].0));
            assert(!name_before(b[k].0, b[0].0));
        }
        let (ta, tb) = (a.drop_first(), b.drop_first());
        assert(ta =~= a.remove(0));
        assert(tb =~= b.remove(0));
        assert(ta.to_multiset() == tb.to_multiset());
        assert(sorted_by_name(ta)) by {
            assert forall|i: int, j: int| 0 <= i < j < ta.len() implies !name_before(#[trigger] ta[j].0, #[trigger] ta[i].0) by {
                assert(ta[i] == a[i + 1] && ta[j] == a[j + 1]);
            }
        }
        assert(sorted_by_name(tb)) by {
            assert forall|i: int, j: int| 0 <= i < j < tb.len() implies !name_before(#[trigger] tb[j].0, #[trigger] tb[i].0) by {
                assert(tb[i] == b[i + 1] && tb[j] == b[j + 1]);
            }
        }
        assert(one_value_per_name(ta)) by {
            assert forall|i: int, j: int|
                0 <= i < ta.len() && 0 <= j < ta.len() && #[trigger] ta[i].0 == #[trigger] ta[j].0 implies ta[i] == ta[j] by {
                assert(ta[i] == a[i + 1] && ta[j] == a[j + 1]);
            }
        }
        lemma_sorted_unique(ta, tb);
        assert(a =~= seq![a[0]] + ta);
        assert(b =~= seq![b[0]] + tb);
    }
}

/// When no name has two values, as in a map of variables, substitution
/// depends only on the bindings, not on the order in which they are listed.
pub proof fn law_substitution_ignores_listing_order(
    expr: Seq<char>,
    vars1: Seq<(Seq<char>, Seq<char>)>,
    vars2: Seq<(Seq<char>, Seq<char>)>,
)
    requires
        vars1.to_multiset() == vars2.to_multiset(),
        one_value_per_name(vars1),
    ensures
        order_by_name(vars1) == order_by_name(vars2),
        substituted(expr, vars1) == substituted(expr, vars2),
{
    broadcast use vstd::seq_lib::group_to_multiset_ensures;

    law_substitution_order(vars1);
    law_substitution_order(vars2);
    let o = order_by_name(vars1);
    assert(one_value_per_name(o)) by {
        assert forall|i: int, j: int|
            0 <= i < o.len() && 0 <= j < o.len() && #[trigger] o[i].0 == #[trigger] o[j].0 implies o[i] == o[j] by {
            assert(o.to_multiset().count(o[i]) > 0 && o.to_multiset().count(o[j]) > 0);
            assert(vars1.contains(o[i]) && vars1.contains(o[j]));
        }
    }
    lemma_sorted_unique(o, order_by_name(vars2));
}

/// Substitutes the value texts of `vars` (name, value text) for the names
/// that occur as whole words in `expr`. Longer names go first, so that a
/// name is not replaced inside a longer one; each name is used as a
/// pattern, and each value text as a replacement string with `$`-patterns.
/// When a name is not a valid pattern the result is empty. The bindings
/// may be listed in any order: as long as no name has two values, as in a
/// map of variables, the result is the same.
pub fn replace_vars(expr: &str, vars: &Vec<(String, String)>) -> (out: String)
    ensures
        out@ == substituted(expr@, pair_views(vars@)),
{
    let order = order_bindings(vars);
    let ghost ord = pair_views(order@);
    let mut result: Vec<char> = chars_of(expr);
    let mut k: usize = 0;
    assert(ord.skip(0) =~= ord);
    while k < order.len()
        invariant
            k <= order.len(),
            ord == pair_views(order@),
            ord == order_by_name(pair_views(vars@)),
            replace_each(expr@, ord) == replace_each(result@, ord.skip(k as int)),
        decreases order.len() - k,
    {
        let ghost rest = ord.skip(k as int);
        assert(rest[0] == ord[k as int]);
        assert(rest.drop_first() =~= ord.skip(k + 1));
        let name = chars_of(order[k].0.as_str());
        let mut pattern: Vec<char> = vec!['\\', 'b'];
        let mut n: usize = 0;
        while n < name.len()
            invariant
                n <= name.len(),
                pattern@ == seq!['\\', 'b'] + name@.take(n as int),
            decreases name.len() - n,
        {
            pattern.push(name[n]);
            assert(name@.take(n + 1) =~= name@.take(n as int).push(name@[n as int]));
            n += 1;
        }
        pattern.push('\\');
        pattern.push('b');
        assert(name@.take(n as int) =~= name@);
        assert(pattern@ =~= word_pattern(ord[k as int].0));
        let pattern_text = string_of(&pattern);
        match compile_regex(pattern_text.as_str()) {
            None => {
                return String::new();
            },
            Some(re) => {
                let value = chars_of(order[k].1.as_str());
                result = regex_replace_global(&re, &result, &value);
            },
        }
        k += 1;
    }
    assert(ord.skip(k as int) =~= Seq::<(Seq<char>, Seq<char>)>::empty());
    string_of(&result)
}

// ---------------------------------------------------------------------
// JSON text of a string value

/// The lowercase hexadecimal digit for `n` (below 16).
pub open spec fn hex_digit(n: int) -> char {
    if n < 10 {
        (48 + n) as char
    } else {
        (87 + n) as char
    }
}

/// How `JSON.stringify` writes one character inside a string literal.
pub open spec fn json_escape_char(c: char) -> Seq<char> {
    if c == '"' {
        seq!['\\', '"']
    } else if c == '\\' {
        seq!['\\', '\\']
    } else if c == '\n' {
        seq!['\\', 'n']
    } else if c == '\r' {
        seq!['\\', 'r']
    } else if c == '\t' {
        seq!['\\', 't']
    } else if c == '\u{08}' {
        seq!['\\', 'b']
    } else if c == '\u{0c}' {
        seq!['\\', 'f']
    } else if (c as u32) < 0x20 {
        seq!['\\', 'u', '0', '0', hex_digit((c as u32 / 16) as int), hex_digit((c as u32 % 16) as int)]
    } else {
        seq![c]
    }
}

/// The escaped characters of `s`, without the quotes.
pub open spec fn json_escape(s: Seq<char>) -> Seq<char>
    decreases s.len(),
{
    if s.len() == 0 {
        Seq::empty()
    } else {
        json_escape(s.drop_last()) + json_escape_char(s.last())
    }
}

/// The JSON string literal of `s`.
pub open spec fn json_quoted(s: Seq<char>) -> Seq<char> {
    seq!['"'] + json_escape(s) + seq!['"']
}

fn hex_char(n: u32) -> (c: char)
    requires
        n < 16,
    ensures
        c == hex_digit(n as int),
{
    if n < 10 {
        let b: u8 = 48 + n as u8;
        b as char
    } else {
        let b: u8 = 87 + n as u8;
        b as char
    }
}

/// Appends the JSON form of one character.
fn push_json_char(out: &mut Vec<char>, c: char)
    ensures
        final(out)@ == old(out)@ + json_escape_char(c),
{
    let ghost start = out@;
    if c == '"' {
        out.push('\\');
        out.push('"');
    } else if c == '\\' {
        out.push('\\');
        out.push('\\');
    } else if c == '\n' {
        out.push('\\');
        out.push('n');
    } else if c == '\r' {
        out.push('\\');
        out.push('r');
    } else if c == '\t' {
        out.push('\\');
        out.push('t');
    } else if c == '\u{08}' {
        out.push('\\');
        out.push('b');
    } else if c == '\u{0c}' {
        out.push('\\');
        out.push('f');
    } else if (c as u32) < 0x20 {
        let code = c as u32;
        out.push('\\');
        out.push('u');
        out.push('0');
        out.push('0');
        out.push(hex_char(code / 16));
        out.push(hex_char(code % 16));
    } else {
        out.push(c);
    }
    assert(out@ =~= start + json_escape_char(c));
}

/// The JSON string literal of `text`, as `JSON.stringify` writes it: quotes,
/// backslash escapes for the quote, the backslash and the named control
/// characters, and `\u00XX` for the other control characters.
pub fn json_string(text: &str) -> (out: String)
    ensures
        out@ == json_quoted(text@),
{
    let chars = chars_of(text);
    let mut out: Vec<char> = vec!['"'];
    let mut i: usize = 0;
    while i < chars.len()
        invariant
            i <= chars.len(),
            out@ == seq!['"'] + json_escape(chars@.take(i as int)),
        decreases chars.len() - i,
    {
        let ghost before = out@;
        push_json_char(&mut out, chars[i]);
        assert(chars@.take(i + 1).drop_last() =~= chars@.take(i as int));
        assert(chars@.take(i + 1).last() == chars@[i as int]);
        assert(out@ =~= seq!['"'] + json_escape(chars@.take(i + 1)));
        i += 1;
    }
    out.push('"');
    assert(chars@.take(i as int) =~= text@);
    string_of(&out)
}

proof fn lemma_json_escape_first(t: Seq<char>)
    requires
        t.len() > 0,
    ensures
        json_escape(t) == json_escape_char(t[0]) + json_escape(t.drop_first()),
    decreases t.len(),
{
    if t.len() == 1 {
        assert(t.drop_last() =~= Seq::<char>::empty());
        assert(t.drop_first() =~= Seq::<char>::empty());
        assert(json_escape(t.drop_last()) =~= Seq::<char>::empty());
        assert(json_escape(t.drop_first()) =~= Seq::<char>::empty());
        assert(json_escape(t) =~= json_escape_char(t[0]));
    } else {
        lemma_json_escape_first(t.drop_last());
        assert(t.drop_last().drop_first() =~= t.drop_first().drop_last());
        assert(t.drop_first().last() == t.last());
        assert(json_escape(t) =~= json_escape_char(t[0]) + json_escape(t.drop_first()));
    }
}

proof fn lemma_hex_digit_value(n: int)
    requires
        0 <= n < 16,
    ensures
        digit_value_in(hex_digit(n), 16) == Some(n as u32),
{
}

/// Reading the escapes of `u` and the closing quote from `p` adds `u` to
/// the text read so far.
proof fn lemma_read_escaped(s: Seq<char>, p: int, u: Seq<char>, acc: Seq<char>)
    requires
        0 <= p,
        p + json_escape(u).len() + 1 <= s.len(),
        s.subrange(p, p + json_escape(u).len() + 1) == json_escape(u) + seq!['"'],
    ensures
        string_body(s, p, '"', acc) == (Some(acc + u), p + json_escape(u).len() + 1),
    decreases u.len(),
{
    if u.len() == 0 {
        assert(json_escape(u) =~= Seq::<char>::empty());
        assert(s[p] == s.subrange(p, p + 1)[0]);
        assert(acc + u =~= acc);
    } else {
        let c = u[0];
        let esc = json_escape_char(c);
        let tail = u.drop_first();
        lemma_json_escape_first(u);
        let n = esc.len() as int;
        assert(s.subrange(p + n, p + n + json_escape(tail).len() + 1) =~= json_escape(tail) + seq!['"'])
            by {
            assert forall|i: int| 0 <= i < json_escape(tail).len() + 1 implies s.subrange(
                p + n,
                p + n + json_escape(tail).len() + 1,
            )[i] == (json_escape(tail) + seq!['"'])[i] by {
                assert(s.subrange(p, p + json_escape(u).len() + 1)[n + i] == s[p + n + i]);
            }
        }
        assert forall|i: int| 0 <= i < n implies s[p + i] == esc[i] by {
            assert(s.subrange(p, p + json_escape(u).len() + 1)[i] == s[p + i]);
        }
        lemma_read_escaped(s, p + n, tail, acc.push(c));
        assert(acc.push(c) + tail =~= acc + u);
        if c == '"' || c == '\\' || c == '\n' || c == '\r' || c == '\t' || c == '\u{08}' || c
            == '\u{0c}' {
            assert(peek_at(s, p) == Some('\\'));
            assert(peek_at(s, p + 1) == Some(esc[1]));
            assert(escaped_char(esc[1]) == c);
        } else if (c as u32) < 0x20 {
            let code = c as u32;
            let h1 = code / 16;
            let h2 = code % 16;
            assert(peek_at(s, p + 1) == Some('u'));
            assert(peek_at(s, p + 2) == Some('0'));
            lemma_hex_digit_value(h1 as int);
            lemma_hex_digit_value(h2 as int);
            assert(s[p + 4] == hex_digit(h1 as int));
            assert(s[p + 5] == hex_digit(h2 as int));
            assert(next_code(0, 0) == 0);
            assert(next_code(0, h1) == h1);
            assert(next_code(h1, h2) == code) by {
                assert(code == h1 * 16 + h2);
            }
            assert(hex_escape(s, p + 6, 0, code) == (char_with_code(code), p + 6));
            assert(hex_escape(s, p + 5, 1, h1) == hex_escape(s, p + 6, 0, code));
            assert(hex_escape(s, p + 4, 2, 0) == hex_escape(s, p + 5, 1, h1));
            assert(hex_escape(s, p + 3, 3, 0) == hex_escape(s, p + 4, 2, 0));
            assert(hex_escape(s, p + 2, 4, 0) == hex_escape(s, p + 3, 3, 0));
            vstd::utf8::char_u32_cast(c, code);
            assert(char_with_code(code) == Some(c));
            assert(unicode_escape(s, p + 2) == (Some(c), p + 6));
        } else {
            assert(esc =~= seq![c]);
            assert(s[p] == s.subrange(p, p + json_escape(u).len() + 1)[0]);
            assert(peek_at(s, p) == Some(c));
        }
    }
}

/// A string value substituted into an expression reads back as itself: the
/// JSON literal of `t`, followed by anything, is read by
/// `ExprParser::parse_string` (quote `"`, opening quote at position 0) as
/// exactly `t`, ending just after the closing quote.
pub proof fn law_json_string_reads_back(t: Seq<char>, rest: Seq<char>)
    ensures
        string_body(json_quoted(t) + rest, 1, '"', Seq::empty()) == (
            Some(t),
            json_quoted(t).len() as int,
        ),
{
    let s = json_quoted(t) + rest;
    let e = json_escape(t);
    assert(s.subrange(1, 1 + e.len() + 1 as int) =~= e + seq!['"']);
    lemma_read_escaped(s, 1, t, Seq::empty());
    assert(Seq::<char>::empty() + t =~= t);
}

// ---------------------------------------------------------------------
// Sensor readings of the simulator

/// The colour that the front colour sensor reads in the simulator.
pub fn get_front_color() -> (color: &'static str)
    ensures
        color@ == "green"@,
{
    "green"
}

/// The colour that the back colour sensor reads in the simulator.
pub fn get_back_color() -> (color: &'static str)
    ensures
        color@ == "blue"@,
{
    "blue"
}

// ---------------------------------------------------------------------
// Reading JSON string literals

/// The character a JSON escape `\e` stands for, other than `\u`.
pub open spec fn json_simple_escape(e: char) -> Option<char> {
    if e == '"' {
        Some('"')
    } else if e == '\\' {
        Some('\\')
    } else if e == '/' {
        Some('/')
    } else if e == 'b' {
        Some('\u{08}')
    } else if e == 'f' {
        Some('\u{0c}')
    } else if e == 'n' {
        Some('\n')
    } else if e == 'r' {
        Some('\r')
    } else if e == 't' {
        Some('\t')
    } else {
        None
    }
}

/// The code of four hexadecimal digits at `q`.
pub open spec fn json_hex4(s: Seq<char>, q: int) -> Option<u32> {
    if 0 <= q && q + 4 <= s.len() {
        match (digit_value_in(s[q], 16), digit_value_in(s[q + 1], 16), digit_value_in(s[q + 2], 16), digit_value_in(s[q + 3], 16)) {
            (Some(a), Some(b), Some(c), Some(d)) => Some((a * 4096 + b * 256 + c * 16 + d) as u32),
            _ => None,
        }
    } else {
        None
    }
}

/// The contents of a JSON string literal from `p` to its closing quote,
/// as JSON (RFC 8259) reads them, `acc` being read already: the text and
/// the position after the quote. A raw character below U+0020 is refused,
/// as is an unknown escape; `\uXXXX` stands for the character with that
/// code (surrogate pairs are not read).
pub open spec fn json_string_from(s: Seq<char>, p: int, acc: Seq<char>) -> Option<(Seq<char>, int)>
    decreases s.len() - p,
{
    if p < 0 || p >= s.len() {
        None
    } else if s[p] == '"' {
        Some((acc, p + 1))
    } else if (s[p] as u32) < 0x20 {
        None
    } else if s[p] == '\\' {
        if p + 1 >= s.len() {
            None
        } else if s[p + 1] == 'u' {
            match json_hex4(s, p + 2) {
                Some(code) => match char_with_code(code) {
                    Some(c) => json_string_from(s, p + 6, acc.push(c)),
                    None => None,
                },
                None => None,
            }
        } else {
            match json_simple_escape(s[p + 1]) {
                Some(c) => json_string_from(s, p + 2, acc.push(c)),
                None => None,
            }
        }
    } else {
        json_string_from(s, p + 1, acc.push(s[p]))
    }
}

/// The text of a whole JSON string literal, if `s` is one.
pub open spec fn json_string_literal(s: Seq<char>) -> Option<Seq<char>> {
    if s.len() > 0 && s[0] == '"' {
        match json_string_from(s, 1, Seq::empty()) {
            Some((t, e)) => if e == s.len() {
                Some(t)
            } else {
                None
            },
            None => None,
        }
    } else {
        None
    }
}

proof fn lemma_json_read(s: Seq<char>, p: int, u: Seq<char>, acc: Seq<char>)
    requires
        0 <= p,
        p + json_escape(u).len() + 1 <= s.len(),
        s.subrange(p, p + json_escape(u).len() + 1) == json_escape(u) + seq!['"'],
    ensures
        json_string_from(s, p, acc) == Some((acc + u, p + json_escape(u).len() + 1)),
    decreases u.len(),
{
    if u.len() == 0 {
        assert(json_escape(u) =~= Seq::<char>::empty());
        assert(s[p] == s.subrange(p, p + 1)[0]);
        assert(acc + u =~= acc);
    } else {
        let c = u[0];
        let esc = json_escape_char(c);
        let tail = u.drop_first();
        lemma_json_escape_first(u);
        let n = esc.len() as int;
        assert(s.subrange(p + n, p + n + json_escape(tail).len() + 1) =~= json_escape(tail) + seq!['"'])
            by {
            assert forall|i: int| 0 <= i < json_escape(tail).len() + 1 implies s.subrange(
                p + n,
                p + n + json_escape(tail).len() + 1,
            )[i] == (json_escape(tail) + seq!['"'])[i] by {
                assert(s.subrange(p, p + json_escape(u).len() + 1)[n + i] == s[p + n + i]);
            }
        }
        assert forall|i: int| 0 <= i < n implies s[p + i] == esc[i] by {
            assert(s.subrange(p, p + json_escape(u).len() + 1)[i] == s[p + i]);
        }
        lemma_json_read(s, p + n, tail, acc.push(c));
        assert(acc.push(c) + tail =~= acc + u);
        if c == '"' || c == '\\' || c == '\n' || c == '\r' || c == '\t' || c == '\u{08}' || c
            == '\u{0c}' {
            assert(s[p] == '\\');
            assert(s[p + 1] == esc[1]);
            assert(json_simple_escape(esc[1]) == Some(c));
        } else if (c as u32) < 0x20 {
            let code = c as u32;
            let h1 = code / 16;
            let h2 = code % 16;
            assert(s[p] == '\\' && s[p + 1] == 'u' && s[p + 2] == '0' && s[p + 3] == '0');
            lemma_hex_digit_value(0);
            lemma_hex_digit_value(h1 as int);
            lemma_hex_digit_value(h2 as int);
            assert(s[p + 4] == hex_digit(h1 as int));
            assert(s[p + 5] == hex_digit(h2 as int));
            assert(json_hex4(s, p + 2) == Some(code)) by {
                assert(code == h1 * 16 + h2);
            }
            vstd::utf8::char_u32_cast(c, code);
            assert(char_with_code(code) == Some(c));
        } else {
            assert(esc =~= seq![c]);
            assert(s[p] == s.subrange(p, p + json_escape(u).len() + 1)[0]);
        }
    }
}

proof fn lemma_json_escape_printable(t: Seq<char>)
    ensures
        forall|i: int| 0 <= i < json_escape(t).len() ==> (#[trigger] json_escape(t)[i] as u32) >= 0x20,
    decreases t.len(),
{
    if t.len() > 0 {
        lemma_json_escape_printable(t.drop_last());
        let c = t.last();
        let code = c as u32;
        if (code as u32) < 0x20 && !(c == '\n' || c == '\r' || c == '\t' || c == '\u{08}' || c == '\u{0c}') {
            assert((hex_digit((code / 16) as int) as u32) >= 0x20);
            assert((hex_digit((code % 16) as int) as u32) >= 0x20);
        }
        let e = json_escape_char(c);
        assert forall|i: int| 0 <= i < e.len() implies (#[trigger] e[i] as u32) >= 0x20 by {}
        let prev = json_escape(t.drop_last());
        assert forall|i: int| 0 <= i < json_escape(t).len() implies (#[trigger] json_escape(t)[i] as u32) >= 0x20 by {
            if i < prev.len() {
                assert(json_escape(t)[i] == prev[i]);
            } else {
                assert(json_escape(t)[i] == e[i - prev.len()]);
            }
        }
    }
}

/// The JSON text of a string is a JSON string literal of that string: it
/// starts and ends with a double quote, holds no raw character below
/// U+0020, and reading it as JSON gives the string back, the closing quote
/// being its last character (so every quote and backslash inside is
/// escaped).
pub proof fn law_json_string_is_json(t: Seq<char>)
    ensures
        json_quoted(t)[0] == '"',
        json_quoted(t).last() == '"',
        forall|i: int| 0 <= i < json_quoted(t).len() ==> (#[trigger] json_quoted(t)[i] as u32) >= 0x20,
        json_string_literal(json_quoted(t)) == Some(t),
{
    let s = json_quoted(t);
    let e = json_escape(t);
    lemma_json_escape_printable(t);
    assert forall|i: int| 0 <= i < s.len() implies (#[trigger] s[i] as u32) >= 0x20 by {
        if 0 < i < s.len() - 1 {
            assert(s[i] == e[i - 1]);
        }
    }
    assert(s.subrange(1, 1 + e.len() + 1 as int) =~= e + seq!['"']);
    lemma_json_read(s, 1, t, Seq::empty());
    assert(Seq::<char>::empty() + t =~= t);
}

} // verus!
