//! Limits of the control-flow interpreter, and the table of user
//! functions with the keys under which their bodies are stored.
use vstd::prelude::*;

use crate::text::{chars_of, str_eq, string_of};

verus! {

/// The most commands that one simulation runs.
pub const MAX_ITER: u64 = 10000;

/// The most iterations of one `while` block.
pub const MAX_WHILE_LOOPS: u64 = 500;

/// The key under which the body of function `name` is stored.
pub open spec fn function_key(name: Seq<char>) -> Seq<char> {
    "__func_"@ + name
}

/// The key under which the body of function `name` is stored.
pub fn func_key(name: &str) -> (key: String)
    ensures
        key@ == function_key(name@),
{
    let mut out = chars_of("__func_");
    let rest = chars_of(name);
    let ghost head = out@;
    let mut i: usize = 0;
    while i < rest.len()
        invariant
            i <= rest.len(),
            out@ == head + rest@.take(i as int),
        decreases rest.len() - i,
    {
        out.push(rest[i]);
        assert(rest@.take(i + 1) =~= rest@.take(i as int).push(rest@[i as int]));
        i += 1;
    }
    assert(rest@.take(i as int) =~= rest@);
    string_of(&out)
}

/// Distinct function names are stored under distinct keys.
pub proof fn law_function_keys_distinct(a: Seq<char>, b: Seq<char>)
    ensures
        function_key(a) == function_key(b) ==> a == b,
{
    if function_key(a) == function_key(b) {
        let n = "__func_"@.len();
        assert(a =~= function_key(a).skip(n as int));
        assert(b =~= function_key(b).skip(n as int));
    }
}

// ---------------------------------------------------------------------
// The function table

/// The user functions of a running plan, and how many commands have run.
#[derive(Clone, Debug)]
pub struct ControlContext<B> {
    /// Bodies under their keys; of entries with the same key, the first counts.
    pub functions: Vec<(String, B)>,
    pub iter_count: u64,
}

/// The first index from `i` on whose entry has key `key`.
pub open spec fn first_at<B>(fs: Seq<(String, B)>, key: Seq<char>, i: int) -> Option<int>
    decreases fs.len() - i,
{
    if i < 0 || i >= fs.len() {
        None
    } else if fs[i].0@ == key {
        Some(i)
    } else {
        first_at(fs, key, i + 1)
    }
}

/// The table as a map from keys to bodies.
pub open spec fn function_map<B>(fs: Seq<(String, B)>) -> Map<Seq<char>, B> {
    Map::new(|k: Seq<char>| first_at(fs, k, 0) is Some, |k: Seq<char>| fs[first_at(fs, k, 0).unwrap()].1)
}

proof fn lemma_first_at_found<B>(fs: Seq<(String, B)>, key: Seq<char>, i: int)
    requires
        0 <= i,
    ensures
        first_at(fs, key, i) matches Some(j) ==> i <= j < fs.len() && fs[j].0@ == key,
        first_at(fs, key, i) is None ==> forall|j: int| i <= j < fs.len() ==> #[trigger] fs[j].0@ != key,
    decreases fs.len() - i,
{
    if i < fs.len() && fs[i].0@ != key {
        lemma_first_at_found(fs, key, i + 1);
    }
}

proof fn lemma_first_at_update<B>(fs: Seq<(String, B)>, n: int, e: (String, B), key: Seq<char>, i: int)
    requires
        0 <= n < fs.len(),
        0 <= i,
        fs[n].0@ != key,
        e.0@ != key,
    ensures
        first_at(fs.update(n, e), key, i) == first_at(fs, key, i),
    decreases fs.len() - i,
{
    if i < fs.len() {
        lemma_first_at_update(fs, n, e, key, i + 1);
    }
}

proof fn lemma_first_at_update_same<B>(fs: Seq<(String, B)>, n: int, e: (String, B), key: Seq<char>, i: int)
    requires
        0 <= i <= n < fs.len(),
        first_at(fs, key, i) == Some(n),
        e.0@ == key,
    ensures
        first_at(fs.update(n, e), key, i) == Some(n),
    decreases n - i,
{
    if i < n {
        lemma_first_at_update_same(fs, n, e, key, i + 1);
    }
}

proof fn lemma_first_at_push<B>(fs: Seq<(String, B)>, e: (String, B), key: Seq<char>, i: int)
    requires
        0 <= i <= fs.len(),
        first_at(fs, key, i) is None || e.0@ != key,
    ensures
        first_at(fs.push(e), key, i) == if e.0@ == key {
            Some(fs.len() as int)
        } else {
            first_at(fs, key, i)
        },
    decreases fs.len() - i,
{
    assert(fs.push(e)[i] == if i < fs.len() {
        fs[i]
    } else {
        e
    });
    if i < fs.len() {
        lemma_first_at_push(fs, e, key, i + 1);
    }
}

impl<B> ControlContext<B> {
    /// An empty table, nothing run yet.
    pub fn new() -> (r: Self)
        ensures
            r.functions@.len() == 0,
            r.iter_count == 0,
    {
        ControlContext { functions: Vec::new(), iter_count: 0 }
    }
}

impl<B> Default for ControlContext<B> {
    fn default() -> (r: Self)
        ensures
            r.functions@.len() == 0,
            r.iter_count == 0,
    {
        ControlContext::new()
    }
}

/// Stores `children` as the body of function `name`, in place of any
/// body it had.
pub fn define_function<B>(ctx: &mut ControlContext<B>, name: &str, children: B)
    ensures
        function_map(final(ctx).functions@) == function_map(old(ctx).functions@).insert(
            function_key(name@),
            children,
        ),
        final(ctx).iter_count == old(ctx).iter_count,
{
    let key = func_key(name);
    let ghost fs = ctx.functions@;
    let ghost k = key@;
    let mut i: usize = 0;
    while i < ctx.functions.len()
        invariant
            i <= ctx.functions.len(),
            ctx.functions@ == fs,
            ctx.iter_count == old(ctx).iter_count,
            fs == old(ctx).functions@,
            k == key@,
            k == function_key(name@),
            first_at(fs, k, 0) == first_at(fs, k, i as int),
        decreases ctx.functions.len() - i,
    {
        if str_eq(ctx.functions[i].0.as_str(), key.as_str()) {
            let ghost entry = (key, children);
            ctx.functions[i] = (key, children);
            proof {
                let nf = fs.update(i as int, entry);
                assert(ctx.functions@ == nf);
                lemma_first_at_update_same(fs, i as int, entry, k, 0);
                assert forall|q: Seq<char>| q != k implies first_at(nf, q, 0) == first_at(fs, q, 0) by {
                    lemma_first_at_update(fs, i as int, entry, q, 0);
                }
                assert forall|q: Seq<char>| #[trigger] function_map(nf).contains_key(q) && q != k implies function_map(
                    nf,
                )[q] == function_map(fs)[q] by {
                    lemma_first_at_found(fs, q, 0);
                }
                assert(function_map(nf) =~= function_map(fs).insert(k, children));
            }
            return;
        }
        i += 1;
    }
    let ghost entry = (key, children);
    ctx.functions.push((key, children));
    proof {
        let nf = fs.push(entry);
        assert(first_at(fs, k, fs.len() as int) is None);
        lemma_first_at_push(fs, entry, k, 0);
        assert forall|q: Seq<char>| q != k implies first_at(nf, q, 0) == first_at(fs, q, 0) by {
            lemma_first_at_push(fs, entry, q, 0);
        }
        assert forall|q: Seq<char>| #[trigger] function_map(nf).contains_key(q) && q != k implies function_map(
            nf,
        )[q] == function_map(fs)[q] by {
            lemma_first_at_found(fs, q, 0);
        }
        assert(function_map(nf) =~= function_map(fs).insert(k, children));
    }
}

/// The body stored for function `name`, if there is one.
pub fn call_function<'a, B>(ctx: &'a ControlContext<B>, name: &str) -> (r: Option<&'a B>)
    ensures
        match r {
            Some(body) => function_map(ctx.functions@).contains_key(function_key(name@))
                && function_map(ctx.functions@)[function_key(name@)] == *body,
            None => !function_map(ctx.functions@).contains_key(function_key(name@)),
        },
{
    let key = func_key(name);
    let ghost fs = ctx.functions@;
    let mut i: usize = 0;
    while i < ctx.functions.len()
        invariant
            i <= ctx.functions.len(),
            fs == ctx.functions@,
            key@ == function_key(name@),
            first_at(fs, key@, 0) == first_at(fs, key@, i as int),
        decreases ctx.functions.len() - i,
    {
        if str_eq(ctx.functions[i].0.as_str(), key.as_str()) {
            return Some(&ctx.functions[i].1);
        }
        i += 1;
    }
    None
}

/// Calling a function after defining it gives the body just defined, and
/// defining one function leaves every other function's body as it was.
pub proof fn law_call_after_define<B>(table: Map<Seq<char>, B>, name: Seq<char>, other: Seq<char>, body: B)
    ensures
        table.insert(function_key(name), body).contains_key(function_key(name)),
        table.insert(function_key(name), body)[function_key(name)] == body,
        other != name ==> (table.insert(function_key(name), body).contains_key(function_key(other))
            <==> table.contains_key(function_key(other))),
        other != name && table.contains_key(function_key(other)) ==> table.insert(
            function_key(name),
            body,
        )[function_key(other)] == table[function_key(other)],
{
    law_function_keys_distinct(name, other);
}

} // verus!
