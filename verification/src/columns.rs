//! Column-wise traversals shared by the unary and binary nature propagation:
//! mapping and pairing categories, and deriving bounds column by column.
//! Each traversal takes the operator as a closure; when the closure computes
//! a spec function, the result is that of the spec function, and whatever the
//! closure, every value in a successful result is one the closure returned.

use vstd::prelude::*;
use crate::error::{CategoryKind, Error};
use crate::properties::column_view;
use crate::transforms::{BinaryBounds, UnaryBounds};

verus! {

pub open spec fn result_seq<T>(r: Result<Vec<T>, Error>) -> Result<Seq<T>, Error> {
    match r {
        Ok(v) => Ok(v@),
        Err(e) => Err(e),
    }
}

/// The closure `g` computes the spec function `f`.
pub open spec fn computes1<T, G: Fn(&T) -> Result<T, Error>>(g: G, f: spec_fn(T) -> Result<T, Error>) -> bool {
    forall|a: &T, res: Result<T, Error>| #[trigger] call_ensures(g, (a,), res) ==> res == f(*a)
}

// ---------------------------------------------------------------------------
// Exact meaning, for operators given by spec functions
// ---------------------------------------------------------------------------

/// `f` applied to each entry in order; the first failure is the result.
pub open spec fn map_seq_spec<T>(f: spec_fn(T) -> Result<T, Error>, s: Seq<T>) -> Result<Seq<T>, Error>
    decreases s.len(),
{
    if s.len() == 0 {
        Ok(Seq::empty())
    } else {
        match map_seq_spec(f, s.drop_last()) {
            Err(e) => Err(e),
            Ok(p) => match f(s.last()) {
                Err(e) => Err(e),
                Ok(v) => Ok(p.push(v)),
            },
        }
    }
}

/// `f` with its left operand fixed to `a`.
pub open spec fn fix_left<T>(f: spec_fn(T, T) -> Result<T, Error>, a: T) -> spec_fn(T) -> Result<T, Error> {
    |b: T| f(a, b)
}

/// `f` applied to every pair of a left and a right entry, row by row, the
/// rows concatenated; the first failure is the result.
pub open spec fn product_spec<T>(f: spec_fn(T, T) -> Result<T, Error>, l: Seq<T>, r: Seq<T>) -> Result<Seq<T>, Error>
    decreases l.len(),
{
    if l.len() == 0 {
        Ok(Seq::empty())
    } else {
        match product_spec(f, l.drop_last(), r) {
            Err(e) => Err(e),
            Ok(p) => match map_seq_spec(fix_left(f, l.last()), r) {
                Err(e) => Err(e),
                Ok(row) => Ok(p + row),
            },
        }
    }
}

/// One column of categories mapped through an optional operator.
pub open spec fn column_map_spec<T>(
    f: Option<spec_fn(T) -> Result<T, Error>>,
    kind: CategoryKind,
    c: Option<Seq<T>>,
) -> Result<Option<Seq<T>>, Error> {
    match (c, f) {
        (Some(s), Some(g)) => match map_seq_spec(g, s) {
            Ok(t) => Ok(Some(t)),
            Err(e) => Err(e),
        },
        (Some(_), None) => Err(Error::CategoriesNotPropagated(kind)),
        (None, _) => Ok(None),
    }
}

/// The first `k` columns of categories mapped through an optional operator.
pub open spec fn columns_map_spec<T>(
    f: Option<spec_fn(T) -> Result<T, Error>>,
    kind: CategoryKind,
    cs: Seq<Option<Seq<T>>>,
    k: nat,
) -> Result<Seq<Option<Seq<T>>>, Error>
    decreases k,
{
    if k == 0 {
        Ok(Seq::empty())
    } else {
        match columns_map_spec(f, kind, cs, (k - 1) as nat) {
            Err(e) => Err(e),
            Ok(p) => match column_map_spec(f, kind, cs[k - 1]) {
                Err(e) => Err(e),
                Ok(c) => Ok(p.push(c)),
            },
        }
    }
}

/// One pair of columns of categories combined through an optional operator.
pub open spec fn column_product_spec<T>(
    f: Option<spec_fn(T, T) -> Result<T, Error>>,
    kind: CategoryKind,
    l: Option<Seq<T>>,
    r: Option<Seq<T>>,
) -> Result<Option<Seq<T>>, Error> {
    match (l, r, f) {
        (Some(a), Some(b), Some(g)) => match product_spec(g, a, b) {
            Ok(t) => Ok(Some(t)),
            Err(e) => Err(e),
        },
        (Some(_), Some(_), None) => Err(Error::CategoriesNotPropagated(kind)),
        _ => Ok(None),
    }
}

/// The first `k` pairs of columns of categories combined.
pub open spec fn columns_product_spec<T>(
    f: Option<spec_fn(T, T) -> Result<T, Error>>,
    kind: CategoryKind,
    ls: Seq<Option<Seq<T>>>,
    rs: Seq<Option<Seq<T>>>,
    k: nat,
) -> Result<Seq<Option<Seq<T>>>, Error>
    decreases k,
{
    if k == 0 {
        Ok(Seq::empty())
    } else {
        match columns_product_spec(f, kind, ls, rs, (k - 1) as nat) {
            Err(e) => Err(e),
            Ok(p) => match column_product_spec(f, kind, ls[k - 1], rs[k - 1]) {
                Err(e) => Err(e),
                Ok(c) => Ok(p.push(c)),
            },
        }
    }
}

pub open spec fn min_len(a: nat, b: nat) -> nat {
    if a <= b { a } else { b }
}

proof fn lemma_map_seq_prefix<T>(f: spec_fn(T) -> Result<T, Error>, s: Seq<T>, i: int)
    requires
        0 <= i < s.len(),
    ensures
        map_seq_spec(f, s.take(i + 1)) == (match map_seq_spec(f, s.take(i)) {
            Err(e) => Err(e),
            Ok(p) => match f(s[i]) {
                Err(e) => Err(e),
                Ok(v) => Ok(p.push(v)),
            },
        }),
{
    assert(s.take(i + 1).drop_last() =~= s.take(i));
}

proof fn lemma_map_seq_error_persists<T>(f: spec_fn(T) -> Result<T, Error>, s: Seq<T>, i: int, e: Error)
    requires
        0 <= i <= s.len(),
        map_seq_spec(f, s.take(i)) == Err::<Seq<T>, Error>(e),
    ensures
        map_seq_spec(f, s) == Err::<Seq<T>, Error>(e),
    decreases s.len() - i,
{
    if i < s.len() {
        lemma_map_seq_prefix(f, s, i);
        lemma_map_seq_error_persists(f, s, i + 1, e);
    } else {
        assert(s.take(i) =~= s);
    }
}

// ---------------------------------------------------------------------------
// Traversals
// ---------------------------------------------------------------------------

/// `g` applied to each entry of `v`, stopping at the first failure.
pub fn map_values<T, G: Fn(&T) -> Result<T, Error>>(g: &G, v: &Vec<T>, Ghost(f): Ghost<spec_fn(T) -> Result<T, Error>>) -> (r: Result<Vec<T>, Error>)
    requires
        forall|i: int| 0 <= i < v@.len() ==> call_requires(*g, (&v@[i],)),
    ensures
        computes1(*g, f) ==> result_seq(r) == map_seq_spec(f, v@),
        match r {
            Ok(out) => out@.len() == v@.len() && forall|i: int| 0 <= i < v@.len() ==> call_ensures(*g, (&v@[i],), Ok(#[trigger] out@[i])),
            Err(e) => exists|i: int| 0 <= i < v@.len() && call_ensures(*g, (&v@[i],), Err(e)),
        },
{
    let mut out: Vec<T> = Vec::new();
    let mut i: usize = 0;
    while i < v.len()
        invariant
            i <= v@.len(),
            out@.len() == i,
            forall|j: int| 0 <= j < v@.len() ==> call_requires(*g, (&v@[j],)),
            forall|j: int| 0 <= j < i ==> call_ensures(*g, (&v@[j],), Ok(#[trigger] out@[j])),
            computes1(*g, f) ==> map_seq_spec(f, v@.take(i as int)) == Ok::<Seq<T>, Error>(out@),
        decreases v@.len() - i,
    {
        proof {
            lemma_map_seq_prefix(f, v@, i as int);
        }
        match g(&v[i]) {
            Ok(x) => {
                out.push(x);
            },
            Err(e) => {
                proof {
                    if computes1(*g, f) {
                        lemma_map_seq_error_persists(f, v@, i + 1, e);
                    }
                }
                return Err(e);
            },
        }
        i = i + 1;
    }
    assert(v@.take(v@.len() as int) =~= v@);
    Ok(out)
}


proof fn lemma_product_prefix<T>(f: spec_fn(T, T) -> Result<T, Error>, l: Seq<T>, r: Seq<T>, i: int)
    requires
        0 <= i < l.len(),
    ensures
        product_spec(f, l.take(i + 1), r) == (match product_spec(f, l.take(i), r) {
            Err(e) => Err(e),
            Ok(p) => match map_seq_spec(fix_left(f, l[i]), r) {
                Err(e) => Err(e),
                Ok(row) => Ok(p + row),
            },
        }),
{
    assert(l.take(i + 1).drop_last() =~= l.take(i));
}

proof fn lemma_product_error_persists<T>(f: spec_fn(T, T) -> Result<T, Error>, l: Seq<T>, r: Seq<T>, i: int, e: Error)
    requires
        0 <= i <= l.len(),
        product_spec(f, l.take(i), r) == Err::<Seq<T>, Error>(e),
    ensures
        product_spec(f, l, r) == Err::<Seq<T>, Error>(e),
    decreases l.len() - i,
{
    if i < l.len() {
        lemma_product_prefix(f, l, r, i);
        lemma_product_error_persists(f, l, r, i + 1, e);
    } else {
        assert(l.take(i) =~= l);
    }
}

/// Entries of a successful result taken through `vw`.
pub open spec fn result_seq_view<T, V>(r: Result<Vec<T>, Error>, vw: spec_fn(T) -> V) -> Result<Seq<V>, Error> {
    match r {
        Ok(v) => Ok(v@.map_values(vw)),
        Err(e) => Err(e),
    }
}

/// The closure `g` computes the spec function `f` on the views `vw` of its
/// operands and result.
pub open spec fn computes2v<T, V, G: Fn(&T, &T) -> Result<T, Error>>(
    g: G,
    vw: spec_fn(T) -> V,
    f: spec_fn(V, V) -> Result<V, Error>,
) -> bool {
    forall|a: &T, b: &T, res: Result<T, Error>| #[trigger] call_ensures(g, (a, b), res) ==> (match res {
        Ok(x) => Ok::<V, Error>(vw(x)),
        Err(e) => Err(e),
    }) == f(vw(*a), vw(*b))
}

/// `g` can succeed on the pair `a`, `b`.
pub open spec fn pair_succeeds<T, G: Fn(&T, &T) -> Result<T, Error>>(g: G, a: &T, b: &T) -> bool {
    exists|x: T| call_ensures(g, (a, b), Ok::<T, Error>(x))
}

/// `g` applied to every pair of an entry of `l` and an entry of `r`, row by
/// row, stopping at the first failure.
pub fn product_values<T, V, G: Fn(&T, &T) -> Result<T, Error>>(
    g: &G,
    l: &Vec<T>,
    r: &Vec<T>,
    Ghost(vw): Ghost<spec_fn(T) -> V>,
    Ghost(f): Ghost<spec_fn(V, V) -> Result<V, Error>>,
) -> (res: Result<Vec<T>, Error>)
    requires
        forall|i: int, j: int| 0 <= i < l@.len() && 0 <= j < r@.len() ==> call_requires(*g, (&l@[i], &r@[j])),
    ensures
        computes2v(*g, vw, f) ==> result_seq_view(res, vw) == product_spec(f, l@.map_values(vw), r@.map_values(vw)),
        res matches Err(e) ==> exists|i: int, j: int|
            0 <= i < l@.len() && 0 <= j < r@.len() && call_ensures(*g, (&l@[i], &r@[j]), Err(e)),
        res is Ok ==> forall|i: int, j: int| 0 <= i < l@.len() && 0 <= j < r@.len()
            ==> #[trigger] pair_succeeds(*g, &l@[i], &r@[j]),
{
    let ghost lv = l@.map_values(vw);
    let ghost rv = r@.map_values(vw);
    let mut out: Vec<T> = Vec::new();
    let mut i: usize = 0;
    assert(lv.take(0) =~= Seq::<V>::empty());
    assert(out@.map_values(vw) =~= Seq::<V>::empty());
    while i < l.len()
        invariant
            i <= l@.len(),
            lv == l@.map_values(vw),
            rv == r@.map_values(vw),
            forall|a: int, b: int| 0 <= a < l@.len() && 0 <= b < r@.len() ==> call_requires(*g, (&l@[a], &r@[b])),
            computes2v(*g, vw, f) ==> product_spec(f, lv.take(i as int), rv) == Ok::<Seq<V>, Error>(out@.map_values(vw)),
            forall|a: int, b: int| 0 <= a < i && 0 <= b < r@.len() ==> #[trigger] pair_succeeds(*g, &l@[a], &r@[b]),
        decreases l@.len() - i,
    {
        let ghost prev = out@;
        let ghost row_f = fix_left(f, lv[i as int]);
        let mut j: usize = 0;
        assert(rv.take(0) =~= Seq::<V>::empty());
        assert(out@.subrange(prev.len() as int, out@.len() as int).map_values(vw) =~= Seq::<V>::empty());
        assert(out@.subrange(0, prev.len() as int) =~= prev);
        while j < r.len()
            invariant
                i < l@.len(),
                lv == l@.map_values(vw),
                rv == r@.map_values(vw),
                computes2v(*g, vw, f) ==> product_spec(f, lv.take(i as int), rv) == Ok::<Seq<V>, Error>(prev.map_values(vw)),
                j <= r@.len(),
                out@.len() == prev.len() + j,
                out@.subrange(0, prev.len() as int) == prev,
                row_f == fix_left(f, lv[i as int]),
                forall|a: int, b: int| 0 <= a < l@.len() && 0 <= b < r@.len() ==> call_requires(*g, (&l@[a], &r@[b])),
                computes2v(*g, vw, f) ==> map_seq_spec(row_f, rv.take(j as int)) == Ok::<Seq<V>, Error>(out@.subrange(prev.len() as int, out@.len() as int).map_values(vw)),
                forall|a: int, b: int| 0 <= a < i && 0 <= b < r@.len() ==> #[trigger] pair_succeeds(*g, &l@[a], &r@[b]),
                forall|b: int| 0 <= b < j ==> #[trigger] pair_succeeds(*g, &l@[i as int], &r@[b]),
            decreases r@.len() - j,
        {
            proof {
                lemma_map_seq_prefix(row_f, rv, j as int);
            }
            match g(&l[i], &r[j]) {
                Ok(x) => {
                    assert(pair_succeeds(*g, &l@[i as int], &r@[j as int]));
                    let ghost before = out@;
                    out.push(x);
                    assert(out@.subrange(0, prev.len() as int) =~= prev);
                    assert(out@.subrange(prev.len() as int, out@.len() as int).map_values(vw) =~= before.subrange(prev.len() as int, before.len() as int).map_values(vw).push(vw(x)));
                },
                Err(e) => {
                    proof {
                        if computes2v(*g, vw, f) {
                            assert(row_f(rv[j as int]) == f(lv[i as int], rv[j as int]));
                            lemma_map_seq_error_persists(row_f, rv, j + 1, e);
                            lemma_product_prefix(f, lv, rv, i as int);
                            lemma_product_error_persists(f, lv, rv, i + 1, e);
                        }
                    }
                    return Err(e);
                },
            }
            j = j + 1;
        }
        proof {
            assert(rv.take(rv.len() as int) =~= rv);
            lemma_product_prefix(f, lv, rv, i as int);
            assert(out@.map_values(vw) =~= prev.map_values(vw) + out@.subrange(prev.len() as int, out@.len() as int).map_values(vw));
        }
        i = i + 1;
    }
    assert(lv.take(lv.len() as int) =~= lv);
    Ok(out)
}

// ---------------------------------------------------------------------------
// Columns of categories
// ---------------------------------------------------------------------------

pub open spec fn columns_view<T>(cs: Seq<Option<Vec<T>>>) -> Seq<Option<Seq<T>>> {
    cs.map_values(|o: Option<Vec<T>>| column_view(o))
}

pub open spec fn result_columns<T>(r: Result<Vec<Option<Vec<T>>>, Error>) -> Result<Seq<Option<Seq<T>>>, Error> {
    match r {
        Ok(v) => Ok(columns_view(v@)),
        Err(e) => Err(e),
    }
}

/// The optional closure `g` computes the optional spec function `f`.
pub open spec fn computes1_opt<T, G: Fn(&T) -> Result<T, Error>>(g: Option<G>, f: Option<spec_fn(T) -> Result<T, Error>>) -> bool {
    match (g, f) {
        (Some(a), Some(b)) => computes1(a, b),
        (None, None) => true,
        _ => false,
    }
}

proof fn lemma_columns_map_error_persists<T>(
    f: Option<spec_fn(T) -> Result<T, Error>>,
    kind: CategoryKind,
    cs: Seq<Option<Seq<T>>>,
    k: nat,
    n: nat,
    e: Error,
)
    requires
        k <= n,
        columns_map_spec(f, kind, cs, k) == Err::<Seq<Option<Seq<T>>>, Error>(e),
    ensures
        columns_map_spec(f, kind, cs, n) == Err::<Seq<Option<Seq<T>>>, Error>(e),
    decreases n - k,
{
    if k < n {
        lemma_columns_map_error_persists(f, kind, cs, k + 1, n, e);
    }
}

proof fn lemma_columns_product_error_persists<T>(
    f: Option<spec_fn(T, T) -> Result<T, Error>>,
    kind: CategoryKind,
    ls: Seq<Option<Seq<T>>>,
    rs: Seq<Option<Seq<T>>>,
    k: nat,
    n: nat,
    e: Error,
)
    requires
        k <= n,
        columns_product_spec(f, kind, ls, rs, k) == Err::<Seq<Option<Seq<T>>>, Error>(e),
    ensures
        columns_product_spec(f, kind, ls, rs, n) == Err::<Seq<Option<Seq<T>>>, Error>(e),
    decreases n - k,
{
    if k < n {
        lemma_columns_product_error_persists(f, kind, ls, rs, k + 1, n, e);
    }
}

/// Every column of categories mapped through `g`; a column with categories
/// and no operator fails with `kind`.
pub fn columns_map<T, G: Fn(&T) -> Result<T, Error>>(
    g: &Option<G>,
    kind: CategoryKind,
    cs: &Vec<Option<Vec<T>>>,
    Ghost(f): Ghost<Option<spec_fn(T) -> Result<T, Error>>>,
) -> (r: Result<Vec<Option<Vec<T>>>, Error>)
    requires
        forall|i: int, j: int| #![trigger cs@[i]->0@[j]]
            0 <= i < cs@.len() && cs@[i] is Some && 0 <= j < cs@[i]->0@.len() && g is Some
                ==> call_requires(g->0, (&cs@[i]->0@[j],)),
    ensures
        computes1_opt(*g, f) ==> result_columns(r) == columns_map_spec(f, kind, columns_view(cs@), cs@.len()),
        match r {
            Ok(out) => {
                &&& out@.len() == cs@.len()
                &&& forall|i: int| #![trigger out@[i]] 0 <= i < cs@.len() ==> {
                    &&& (cs@[i] is None <==> out@[i] is None)
                    &&& cs@[i] is Some ==> {
                        &&& g is Some
                        &&& out@[i]->0@.len() == cs@[i]->0@.len()
                        &&& forall|j: int| 0 <= j < cs@[i]->0@.len()
                            ==> call_ensures(g->0, (&cs@[i]->0@[j],), Ok(#[trigger] out@[i]->0@[j]))
                    }
                }
            },
            Err(e) => {
                ||| g is None && e == Error::CategoriesNotPropagated(kind)
                    && exists|i: int| 0 <= i < cs@.len() && (#[trigger] cs@[i]) is Some
                ||| g is Some && exists|i: int, j: int| #![trigger cs@[i]->0@[j]]
                    0 <= i < cs@.len() && cs@[i] is Some && 0 <= j < cs@[i]->0@.len()
                        && call_ensures(g->0, (&cs@[i]->0@[j],), Err(e))
            },
        },
{
    let ghost cv = columns_view(cs@);
    let mut out: Vec<Option<Vec<T>>> = Vec::new();
    let mut i: usize = 0;
    assert(columns_view(out@) =~= Seq::<Option<Seq<T>>>::empty());
    while i < cs.len()
        invariant
            i <= cs@.len(),
            out@.len() == i,
            cv == columns_view(cs@),
            forall|a: int, b: int| #![trigger cs@[a]->0@[b]]
                0 <= a < cs@.len() && cs@[a] is Some && 0 <= b < cs@[a]->0@.len() && g is Some
                    ==> call_requires(g->0, (&cs@[a]->0@[b],)),
            computes1_opt(*g, f) ==> columns_map_spec(f, kind, cv, i as nat) == Ok::<Seq<Option<Seq<T>>>, Error>(columns_view(out@)),
            forall|a: int| #![trigger out@[a]] 0 <= a < i ==> {
                &&& (cs@[a] is None <==> out@[a] is None)
                &&& cs@[a] is Some ==> {
                    &&& g is Some
                    &&& out@[a]->0@.len() == cs@[a]->0@.len()
                    &&& forall|b: int| 0 <= b < cs@[a]->0@.len()
                        ==> call_ensures(g->0, (&cs@[a]->0@[b],), Ok(#[trigger] out@[a]->0@[b]))
                }
            },
        decreases cs@.len() - i,
    {
        let ghost before = out@;
        match &cs[i] {
            Some(c) => match g {
                Some(gg) => {
                    let ghost fi = match f { Some(h) => h, None => |x: T| Err::<T, Error>(Error::FloatCategories) };
                    assert forall|b: int| 0 <= b < c@.len() implies call_requires(*gg, (&c@[b],)) by {
                        assert(cs@[i as int]->0@[b] == c@[b]);
                    }
                    match map_values(gg, c, Ghost(fi)) {
                        Ok(m) => {
                            out.push(Some(m));
                        },
                        Err(e) => {
                            proof {
                                if computes1_opt(*g, f) {
                                    assert(cv[i as int] == Some(c@));
                                    lemma_columns_map_error_persists(f, kind, cv, (i + 1) as nat, cs@.len(), e);
                                }
                                let w = choose|b: int| 0 <= b < c@.len() && call_ensures(*gg, (&c@[b],), Err(e));
                                assert(cs@[i as int]->0@[w] == c@[w]);
                            }
                            return Err(e);
                        },
                    }
                },
                None => {
                    proof {
                        assert(cs@[i as int] is Some);
                        if computes1_opt(*g, f) {
                            assert(cv[i as int] == Some(c@));
                            lemma_columns_map_error_persists(f, kind, cv, (i + 1) as nat, cs@.len(), Error::CategoriesNotPropagated(kind));
                        }
                    }
                    return Err(Error::CategoriesNotPropagated(kind));
                },
            },
            None => {
                out.push(None);
            },
        }
        proof {
            assert(columns_view(out@) =~= columns_view(before).push(column_view(out@[i as int])));
        }
        i = i + 1;
    }
    Ok(out)
}

pub open spec fn column_view_with<T, V>(o: Option<Vec<T>>, vw: spec_fn(T) -> V) -> Option<Seq<V>> {
    match o {
        Some(v) => Some(v@.map_values(vw)),
        None => None,
    }
}

pub open spec fn columns_view_with<T, V>(cs: Seq<Option<Vec<T>>>, vw: spec_fn(T) -> V) -> Seq<Option<Seq<V>>> {
    cs.map_values(|o: Option<Vec<T>>| column_view_with(o, vw))
}

pub open spec fn result_columns_with<T, V>(r: Result<Vec<Option<Vec<T>>>, Error>, vw: spec_fn(T) -> V) -> Result<Seq<Option<Seq<V>>>, Error> {
    match r {
        Ok(v) => Ok(columns_view_with(v@, vw)),
        Err(e) => Err(e),
    }
}

pub open spec fn computes2v_opt<T, V, G: Fn(&T, &T) -> Result<T, Error>>(
    g: Option<G>,
    vw: spec_fn(T) -> V,
    f: Option<spec_fn(V, V) -> Result<V, Error>>,
) -> bool {
    match (g, f) {
        (Some(a), Some(b)) => computes2v(a, vw, b),
        (None, None) => true,
        _ => false,
    }
}

/// Every pair of columns of categories (as far as both have columns)
/// combined through `g`; a pair with categories on both sides and no
/// operator fails with `kind`.
pub fn columns_product<T, V, G: Fn(&T, &T) -> Result<T, Error>>(
    g: &Option<G>,
    kind: CategoryKind,
    ls: &Vec<Option<Vec<T>>>,
    rs: &Vec<Option<Vec<T>>>,
    Ghost(vw): Ghost<spec_fn(T) -> V>,
    Ghost(f): Ghost<Option<spec_fn(V, V) -> Result<V, Error>>>,
) -> (r: Result<Vec<Option<Vec<T>>>, Error>)
    requires
        forall|i: int, a: int, b: int| #![trigger ls@[i]->0@[a], rs@[i]->0@[b]]
            0 <= i < ls@.len() && i < rs@.len() && ls@[i] is Some && rs@[i] is Some && g is Some
                && 0 <= a < ls@[i]->0@.len() && 0 <= b < rs@[i]->0@.len()
                ==> call_requires(g->0, (&ls@[i]->0@[a], &rs@[i]->0@[b])),
    ensures
        computes2v_opt(*g, vw, f) ==> result_columns_with(r, vw) == columns_product_spec(f, kind, columns_view_with(ls@, vw), columns_view_with(rs@, vw), min_len(ls@.len(), rs@.len())),
        r matches Err(e) ==> {
            ||| g is None && e == Error::CategoriesNotPropagated(kind)
            ||| g is Some && exists|i: int, a: int, b: int| #![trigger ls@[i]->0@[a], rs@[i]->0@[b]]
                0 <= i < ls@.len() && i < rs@.len() && ls@[i] is Some && rs@[i] is Some
                    && 0 <= a < ls@[i]->0@.len() && 0 <= b < rs@[i]->0@.len()
                    && call_ensures(g->0, (&ls@[i]->0@[a], &rs@[i]->0@[b]), Err(e))
        },
        r is Ok ==> forall|i: int, a: int, b: int| #![trigger ls@[i]->0@[a], rs@[i]->0@[b]]
            0 <= i < ls@.len() && i < rs@.len() && ls@[i] is Some && rs@[i] is Some && g is Some
                && 0 <= a < ls@[i]->0@.len() && 0 <= b < rs@[i]->0@.len()
                ==> pair_succeeds(g->0, &ls@[i]->0@[a], &rs@[i]->0@[b]),
{
    let ghost lv = columns_view_with(ls@, vw);
    let ghost rv = columns_view_with(rs@, vw);
    let n: usize = if ls.len() <= rs.len() { ls.len() } else { rs.len() };
    let mut out: Vec<Option<Vec<T>>> = Vec::new();
    let mut i: usize = 0;
    assert(columns_view_with(out@, vw) =~= Seq::<Option<Seq<V>>>::empty());
    while i < n
        invariant
            n == min_len(ls@.len(), rs@.len()),
            i <= n,
            out@.len() == i,
            lv == columns_view_with(ls@, vw),
            rv == columns_view_with(rs@, vw),
            forall|c: int, a: int, b: int| #![trigger ls@[c]->0@[a], rs@[c]->0@[b]]
                0 <= c < ls@.len() && c < rs@.len() && ls@[c] is Some && rs@[c] is Some && g is Some
                    && 0 <= a < ls@[c]->0@.len() && 0 <= b < rs@[c]->0@.len()
                    ==> call_requires(g->0, (&ls@[c]->0@[a], &rs@[c]->0@[b])),
            computes2v_opt(*g, vw, f) ==> columns_product_spec(f, kind, lv, rv, i as nat) == Ok::<Seq<Option<Seq<V>>>, Error>(columns_view_with(out@, vw)),
            forall|c: int, a: int, b: int| #![trigger ls@[c]->0@[a], rs@[c]->0@[b]]
                0 <= c < i && ls@[c] is Some && rs@[c] is Some && g is Some
                    && 0 <= a < ls@[c]->0@.len() && 0 <= b < rs@[c]->0@.len()
                    ==> pair_succeeds(g->0, &ls@[c]->0@[a], &rs@[c]->0@[b]),
        decreases n - i,
    {
        let ghost before = out@;
        match (&ls[i], &rs[i]) {
            (Some(a), Some(b)) => match g {
                Some(gg) => {
                    let ghost fi = match f { Some(h) => h, None => |x: V, y: V| Err::<V, Error>(Error::FloatCategories) };
                    assert forall|p: int, q: int| 0 <= p < a@.len() && 0 <= q < b@.len() implies call_requires(*gg, (&a@[p], &b@[q])) by {
                        assert(ls@[i as int]->0@[p] == a@[p]);
                        assert(rs@[i as int]->0@[q] == b@[q]);
                    }
                    match product_values::<T, V, G>(gg, a, b, Ghost(vw), Ghost(fi)) {
                        Ok(m) => {
                            proof {
                                assert forall|p: int, q: int| #![trigger ls@[i as int]->0@[p], rs@[i as int]->0@[q]]
                                    0 <= p < ls@[i as int]->0@.len() && 0 <= q < rs@[i as int]->0@.len()
                                    implies pair_succeeds(*gg, &ls@[i as int]->0@[p], &rs@[i as int]->0@[q]) by {
                                    assert(ls@[i as int]->0@[p] == a@[p]);
                                    assert(rs@[i as int]->0@[q] == b@[q]);
                                    assert(pair_succeeds(*gg, &a@[p], &b@[q]));
                                }
                            }
                            out.push(Some(m));
                        },
                        Err(e) => {
                            proof {
                                if computes2v_opt(*g, vw, f) {
                                    assert(lv[i as int] == Some(a@.map_values(vw)));
                                    assert(rv[i as int] == Some(b@.map_values(vw)));
                                    lemma_columns_product_error_persists(f, kind, lv, rv, (i + 1) as nat, n as nat, e);
                                }
                                let (p, q) = choose|p: int, q: int| 0 <= p < a@.len() && 0 <= q < b@.len() && call_ensures(*gg, (&a@[p], &b@[q]), Err(e));
                                assert(ls@[i as int]->0@[p] == a@[p]);
                                assert(rs@[i as int]->0@[q] == b@[q]);
                            }
                            return Err(e);
                        },
                    }
                },
                None => {
                    proof {
                        if computes2v_opt(*g, vw, f) {
                            assert(lv[i as int] == Some(a@.map_values(vw)));
                            assert(rv[i as int] == Some(b@.map_values(vw)));
                            lemma_columns_product_error_persists(f, kind, lv, rv, (i + 1) as nat, n as nat, Error::CategoriesNotPropagated(kind));
                        }
                    }
                    return Err(Error::CategoriesNotPropagated(kind));
                },
            },
            _ => {
                out.push(None);
            },
        }
        proof {
            assert(columns_view_with(out@, vw) =~= columns_view_with(before, vw).push(column_view_with(out@[i as int], vw)));
        }
        i = i + 1;
    }
    Ok(out)
}

// ---------------------------------------------------------------------------
// Columns of bounds
// ---------------------------------------------------------------------------

pub open spec fn result_pair<T>(r: Result<(Vec<Option<T>>, Vec<Option<T>>), Error>) -> Result<(Seq<Option<T>>, Seq<Option<T>>), Error> {
    match r {
        Ok((a, b)) => Ok((a@, b@)),
        Err(e) => Err(e),
    }
}

/// The closure `g` derives bounds as the spec function `f` does.
pub open spec fn computes_unary_bounds<T, G: Fn(UnaryBounds<T>) -> Result<(Option<T>, Option<T>), Error>>(
    g: Option<G>,
    f: Option<spec_fn(Option<T>, Option<T>) -> Result<(Option<T>, Option<T>), Error>>,
) -> bool {
    match (g, f) {
        (Some(a), Some(b)) => forall|x: UnaryBounds<T>, res: Result<(Option<T>, Option<T>), Error>|
            #[trigger] call_ensures(a, (x,), res) ==> res == b(*x.min, *x.max),
        (None, None) => true,
        _ => false,
    }
}

/// The closure `g` derives bounds as the spec function `f` does.
pub open spec fn computes_binary_bounds<T, G: Fn(BinaryBounds<T>) -> Result<(Option<T>, Option<T>), Error>>(
    g: Option<G>,
    f: Option<spec_fn(Option<T>, Option<T>, Option<T>, Option<T>) -> Result<(Option<T>, Option<T>), Error>>,
) -> bool {
    match (g, f) {
        (Some(a), Some(b)) => forall|x: BinaryBounds<T>, res: Result<(Option<T>, Option<T>), Error>|
            #[trigger] call_ensures(a, (x,), res) ==> res == b(*x.left_min, *x.left_max, *x.right_min, *x.right_max),
        (None, None) => true,
        _ => false,
    }
}

/// Bounds of the first `k` columns derived by `f` from one pair of bounds per
/// column; without `f` nothing is known.
pub open spec fn unary_bounds_spec<T>(
    f: Option<spec_fn(Option<T>, Option<T>) -> Result<(Option<T>, Option<T>), Error>>,
    mins: Seq<Option<T>>,
    maxs: Seq<Option<T>>,
    k: nat,
) -> Result<(Seq<Option<T>>, Seq<Option<T>>), Error>
    decreases k,
{
    if k == 0 {
        Ok((Seq::empty(), Seq::empty()))
    } else {
        match unary_bounds_spec(f, mins, maxs, (k - 1) as nat) {
            Err(e) => Err(e),
            Ok((a, b)) => match f {
                None => Ok((a.push(None), b.push(None))),
                Some(h) => match h(mins[k - 1], maxs[k - 1]) {
                    Err(e) => Err(e),
                    Ok((x, y)) => Ok((a.push(x), b.push(y))),
                },
            },
        }
    }
}

/// Bounds of the first `k` columns derived by `f` from two pairs of bounds
/// per column; without `f` nothing is known.
pub open spec fn binary_bounds_spec<T>(
    f: Option<spec_fn(Option<T>, Option<T>, Option<T>, Option<T>) -> Result<(Option<T>, Option<T>), Error>>,
    lmins: Seq<Option<T>>,
    lmaxs: Seq<Option<T>>,
    rmins: Seq<Option<T>>,
    rmaxs: Seq<Option<T>>,
    k: nat,
) -> Result<(Seq<Option<T>>, Seq<Option<T>>), Error>
    decreases k,
{
    if k == 0 {
        Ok((Seq::empty(), Seq::empty()))
    } else {
        match binary_bounds_spec(f, lmins, lmaxs, rmins, rmaxs, (k - 1) as nat) {
            Err(e) => Err(e),
            Ok((a, b)) => match f {
                None => Ok((a.push(None), b.push(None))),
                Some(h) => match h(lmins[k - 1], lmaxs[k - 1], rmins[k - 1], rmaxs[k - 1]) {
                    Err(e) => Err(e),
                    Ok((x, y)) => Ok((a.push(x), b.push(y))),
                },
            },
        }
    }
}

proof fn lemma_unary_bounds_error_persists<T>(
    f: Option<spec_fn(Option<T>, Option<T>) -> Result<(Option<T>, Option<T>), Error>>,
    mins: Seq<Option<T>>,
    maxs: Seq<Option<T>>,
    k: nat,
    n: nat,
    e: Error,
)
    requires
        k <= n,
        unary_bounds_spec(f, mins, maxs, k) == Err::<(Seq<Option<T>>, Seq<Option<T>>), Error>(e),
    ensures
        unary_bounds_spec(f, mins, maxs, n) == Err::<(Seq<Option<T>>, Seq<Option<T>>), Error>(e),
    decreases n - k,
{
    if k < n {
        lemma_unary_bounds_error_persists(f, mins, maxs, k + 1, n, e);
    }
}

proof fn lemma_binary_bounds_error_persists<T>(
    f: Option<spec_fn(Option<T>, Option<T>, Option<T>, Option<T>) -> Result<(Option<T>, Option<T>), Error>>,
    lmins: Seq<Option<T>>,
    lmaxs: Seq<Option<T>>,
    rmins: Seq<Option<T>>,
    rmaxs: Seq<Option<T>>,
    k: nat,
    n: nat,
    e: Error,
)
    requires
        k <= n,
        binary_bounds_spec(f, lmins, lmaxs, rmins, rmaxs, k) == Err::<(Seq<Option<T>>, Seq<Option<T>>), Error>(e),
    ensures
        binary_bounds_spec(f, lmins, lmaxs, rmins, rmaxs, n) == Err::<(Seq<Option<T>>, Seq<Option<T>>), Error>(e),
    decreases n - k,
{
    if k < n {
        lemma_binary_bounds_error_persists(f, lmins, lmaxs, rmins, rmaxs, k + 1, n, e);
    }
}

/// The bounds of each column (as far as both sequences have columns)
/// derived through `g`; without `g` nothing is known.
pub fn unary_bounds_columns<T, G: Fn(UnaryBounds<T>) -> Result<(Option<T>, Option<T>), Error>>(
    g: &Option<G>,
    mins: &Vec<Option<T>>,
    maxs: &Vec<Option<T>>,
    Ghost(f): Ghost<Option<spec_fn(Option<T>, Option<T>) -> Result<(Option<T>, Option<T>), Error>>>,
) -> (r: Result<(Vec<Option<T>>, Vec<Option<T>>), Error>)
    requires
        g matches Some(gg) ==> forall|i: int| 0 <= i < mins@.len() && i < maxs@.len()
            ==> call_requires(gg, (UnaryBounds { min: &mins@[i], max: &maxs@[i] },)),
    ensures
        computes_unary_bounds(*g, f) ==> result_pair(r) == unary_bounds_spec(f, mins@, maxs@, min_len(mins@.len(), maxs@.len())),
        match r {
            Ok((a, b)) => {
                &&& a@.len() == min_len(mins@.len(), maxs@.len())
                &&& b@.len() == a@.len()
                &&& forall|i: int| #![trigger a@[i]] 0 <= i < a@.len() ==> match g {
                    None => a@[i] is None && b@[i] is None,
                    Some(gg) => call_ensures(*gg, (UnaryBounds { min: &mins@[i], max: &maxs@[i] },), Ok((a@[i], b@[i]))),
                }
            },
            Err(e) => g matches Some(gg) && exists|i: int| 0 <= i < mins@.len() && i < maxs@.len()
                && call_ensures(gg, (UnaryBounds { min: &mins@[i], max: &maxs@[i] },), Err(e)),
        },
{
    let n: usize = if mins.len() <= maxs.len() { mins.len() } else { maxs.len() };
    let mut a: Vec<Option<T>> = Vec::new();
    let mut b: Vec<Option<T>> = Vec::new();
    let mut i: usize = 0;
    while i < n
        invariant
            n == min_len(mins@.len(), maxs@.len()),
            i <= n,
            a@.len() == i,
            b@.len() == i,
            g matches Some(gg) ==> forall|c: int| 0 <= c < mins@.len() && c < maxs@.len()
                ==> call_requires(gg, (UnaryBounds { min: &mins@[c], max: &maxs@[c] },)),
            computes_unary_bounds(*g, f) ==> unary_bounds_spec(f, mins@, maxs@, i as nat) == Ok::<(Seq<Option<T>>, Seq<Option<T>>), Error>((a@, b@)),
            forall|c: int| #![trigger a@[c]] 0 <= c < i ==> match g {
                None => a@[c] is None && b@[c] is None,
                Some(gg) => call_ensures(*gg, (UnaryBounds { min: &mins@[c], max: &maxs@[c] },), Ok((a@[c], b@[c]))),
            },
        decreases n - i,
    {
        match g {
            Some(gg) => match gg(UnaryBounds { min: &mins[i], max: &maxs[i] }) {
                Ok((x, y)) => {
                    a.push(x);
                    b.push(y);
                },
                Err(e) => {
                    proof {
                        if computes_unary_bounds(*g, f) {
                            lemma_unary_bounds_error_persists(f, mins@, maxs@, (i + 1) as nat, n as nat, e);
                        }
                    }
                    return Err(e);
                },
            },
            None => {
                a.push(None);
                b.push(None);
            },
        }
        i = i + 1;
    }
    Ok((a, b))
}

/// The bounds of each column (as far as all four sequences have columns)
/// derived through `g`; without `g` nothing is known.
pub fn binary_bounds_columns<T, G: Fn(BinaryBounds<T>) -> Result<(Option<T>, Option<T>), Error>>(
    g: &Option<G>,
    lmins: &Vec<Option<T>>,
    lmaxs: &Vec<Option<T>>,
    rmins: &Vec<Option<T>>,
    rmaxs: &Vec<Option<T>>,
    Ghost(f): Ghost<Option<spec_fn(Option<T>, Option<T>, Option<T>, Option<T>) -> Result<(Option<T>, Option<T>), Error>>>,
) -> (r: Result<(Vec<Option<T>>, Vec<Option<T>>), Error>)
    requires
        g matches Some(gg) ==> forall|i: int|
            0 <= i < lmins@.len() && i < lmaxs@.len() && i < rmins@.len() && i < rmaxs@.len()
            ==> call_requires(gg, (BinaryBounds { left_min: &lmins@[i], left_max: &lmaxs@[i], right_min: &rmins@[i], right_max: &rmaxs@[i] },)),
    ensures
        computes_binary_bounds(*g, f) ==> result_pair(r) == binary_bounds_spec(f, lmins@, lmaxs@, rmins@, rmaxs@,
            min_len(min_len(lmins@.len(), lmaxs@.len()), min_len(rmins@.len(), rmaxs@.len()))),
        match r {
            Ok((a, b)) => {
                &&& a@.len() == min_len(min_len(lmins@.len(), lmaxs@.len()), min_len(rmins@.len(), rmaxs@.len()))
                &&& b@.len() == a@.len()
                &&& forall|i: int| #![trigger a@[i]] 0 <= i < a@.len() ==> match g {
                    None => a@[i] is None && b@[i] is None,
                    Some(gg) => call_ensures(*gg, (BinaryBounds { left_min: &lmins@[i], left_max: &lmaxs@[i], right_min: &rmins@[i], right_max: &rmaxs@[i] },), Ok((a@[i], b@[i]))),
                }
            },
            Err(e) => g matches Some(gg) && exists|i: int|
                0 <= i < lmins@.len() && i < lmaxs@.len() && i < rmins@.len() && i < rmaxs@.len()
                && call_ensures(gg, (BinaryBounds { left_min: &lmins@[i], left_max: &lmaxs@[i], right_min: &rmins@[i], right_max: &rmaxs@[i] },), Err(e)),
        },
{
    let n1: usize = if lmins.len() <= lmaxs.len() { lmins.len() } else { lmaxs.len() };
    let n2: usize = if rmins.len() <= rmaxs.len() { rmins.len() } else { rmaxs.len() };
    let n: usize = if n1 <= n2 { n1 } else { n2 };
    let mut a: Vec<Option<T>> = Vec::new();
    let mut b: Vec<Option<T>> = Vec::new();
    let mut i: usize = 0;
    while i < n
        invariant
            n == min_len(min_len(lmins@.len(), lmaxs@.len()), min_len(rmins@.len(), rmaxs@.len())),
            i <= n,
            a@.len() == i,
            b@.len() == i,
            g matches Some(gg) ==> forall|c: int|
                0 <= c < lmins@.len() && c < lmaxs@.len() && c < rmins@.len() && c < rmaxs@.len()
                ==> call_requires(gg, (BinaryBounds { left_min: &lmins@[c], left_max: &lmaxs@[c], right_min: &rmins@[c], right_max: &rmaxs@[c] },)),
            computes_binary_bounds(*g, f) ==> binary_bounds_spec(f, lmins@, lmaxs@, rmins@, rmaxs@, i as nat) == Ok::<(Seq<Option<T>>, Seq<Option<T>>), Error>((a@, b@)),
            forall|c: int| #![trigger a@[c]] 0 <= c < i ==> match g {
                None => a@[c] is None && b@[c] is None,
                Some(gg) => call_ensures(*gg, (BinaryBounds { left_min: &lmins@[c], left_max: &lmaxs@[c], right_min: &rmins@[c], right_max: &rmaxs@[c] },), Ok((a@[c], b@[c]))),
            },
        decreases n - i,
    {
        match g {
            Some(gg) => match gg(BinaryBounds { left_min: &lmins[i], left_max: &lmaxs[i], right_min: &rmins[i], right_max: &rmaxs[i] }) {
                Ok((x, y)) => {
                    a.push(x);
                    b.push(y);
                },
                Err(e) => {
                    proof {
                        if computes_binary_bounds(*g, f) {
                            lemma_binary_bounds_error_persists(f, lmins@, lmaxs@, rmins@, rmaxs@, (i + 1) as nat, n as nat, e);
                        }
                    }
                    return Err(e);
                },
            },
            None => {
                a.push(None);
                b.push(None);
            },
        }
        i = i + 1;
    }
    Ok((a, b))
}

// ---------------------------------------------------------------------------
// Operators that succeed everywhere
// ---------------------------------------------------------------------------

/// `f` applied to each entry, for an `f` that succeeds on each of them.
pub open spec fn map_all<T>(f: spec_fn(T) -> Result<T, Error>, s: Seq<T>) -> Seq<T> {
    Seq::new(s.len(), |i: int| f(s[i])->Ok_0)
}

/// Each column of categories with `f` applied to each entry.
pub open spec fn map_columns_all<T>(f: spec_fn(T) -> Result<T, Error>, cs: Seq<Option<Seq<T>>>) -> Seq<Option<Seq<T>>> {
    Seq::new(cs.len(), |i: int| match cs[i] {
        Some(s) => Some(map_all(f, s)),
        None => None,
    })
}

pub proof fn lemma_map_seq_total<T>(f: spec_fn(T) -> Result<T, Error>, s: Seq<T>)
    requires
        forall|i: int| 0 <= i < s.len() ==> #[trigger] f(s[i]) is Ok,
    ensures
        map_seq_spec(f, s) == Ok::<Seq<T>, Error>(map_all(f, s)),
    decreases s.len(),
{
    if s.len() > 0 {
        let t = s.drop_last();
        assert forall|i: int| 0 <= i < t.len() implies #[trigger] f(t[i]) is Ok by {
            assert(t[i] == s[i]);
        }
        lemma_map_seq_total(f, t);
        assert(f(s[s.len() - 1]) is Ok);
        assert(map_all(f, t).push(f(s.last())->Ok_0) =~= map_all(f, s));
    } else {
        assert(map_all(f, s) =~= Seq::<T>::empty());
    }
}

pub proof fn lemma_columns_map_total<T>(f: spec_fn(T) -> Result<T, Error>, kind: CategoryKind, cs: Seq<Option<Seq<T>>>, k: nat)
    requires
        k <= cs.len(),
        forall|x: T| #[trigger] f(x) is Ok,
    ensures
        columns_map_spec(Some(f), kind, cs, k) == Ok::<Seq<Option<Seq<T>>>, Error>(map_columns_all(f, cs.take(k as int))),
    decreases k,
{
    if k == 0 {
        assert(map_columns_all(f, cs.take(0)) =~= Seq::<Option<Seq<T>>>::empty());
    } else {
        lemma_columns_map_total(f, kind, cs, (k - 1) as nat);
        match cs[k - 1] {
            Some(s) => {
                lemma_map_seq_total(f, s);
            },
            None => {},
        }
        assert(map_columns_all(f, cs.take((k - 1) as int)).push(match cs[k - 1] {
            Some(s) => Some(map_all(f, s)),
            None => None,
        }) =~= map_columns_all(f, cs.take(k as int)));
    }
}

pub proof fn lemma_unary_bounds_total<T>(
    h: spec_fn(Option<T>, Option<T>) -> Result<(Option<T>, Option<T>), Error>,
    mins: Seq<Option<T>>,
    maxs: Seq<Option<T>>,
    k: nat,
)
    requires
        k <= mins.len(),
        k <= maxs.len(),
        forall|x: Option<T>, y: Option<T>| #[trigger] h(x, y) is Ok,
    ensures
        unary_bounds_spec(Some(h), mins, maxs, k) == Ok::<(Seq<Option<T>>, Seq<Option<T>>), Error>((
            Seq::new(k, |i: int| h(mins[i], maxs[i])->Ok_0.0),
            Seq::new(k, |i: int| h(mins[i], maxs[i])->Ok_0.1),
        )),
    decreases k,
{
    if k == 0 {
        assert(Seq::new(0, |i: int| h(mins[i], maxs[i])->Ok_0.0) =~= Seq::<Option<T>>::empty());
        assert(Seq::new(0, |i: int| h(mins[i], maxs[i])->Ok_0.1) =~= Seq::<Option<T>>::empty());
    } else {
        lemma_unary_bounds_total(h, mins, maxs, (k - 1) as nat);
        assert(h(mins[k - 1], maxs[k - 1]) is Ok);
        assert(Seq::new((k - 1) as nat, |i: int| h(mins[i], maxs[i])->Ok_0.0).push(h(mins[k - 1], maxs[k - 1])->Ok_0.0)
            =~= Seq::new(k, |i: int| h(mins[i], maxs[i])->Ok_0.0));
        assert(Seq::new((k - 1) as nat, |i: int| h(mins[i], maxs[i])->Ok_0.1).push(h(mins[k - 1], maxs[k - 1])->Ok_0.1)
            =~= Seq::new(k, |i: int| h(mins[i], maxs[i])->Ok_0.1));
    }
}

// ---------------------------------------------------------------------------
// What a successful traversal contains
// ---------------------------------------------------------------------------

/// A successful map gives, at each index, what `f` gives for the entry.
pub proof fn lemma_map_seq_entry<T>(f: spec_fn(T) -> Result<T, Error>, s: Seq<T>, out: Seq<T>, j: int)
    requires
        map_seq_spec(f, s) == Ok::<Seq<T>, Error>(out),
        0 <= j < s.len(),
    ensures
        out.len() == s.len(),
        f(s[j]) == Ok::<T, Error>(out[j]),
    decreases s.len(),
{
    let t = s.drop_last();
    let p = map_seq_spec(f, t)->Ok_0;
    if j < s.len() - 1 {
        lemma_map_seq_entry(f, t, p, j);
        assert(t[j] == s[j]);
    } else {
        assert(s.last() == s[j]);
    }
    if t.len() > 0 {
        lemma_map_seq_entry(f, t, p, 0);
    }
}

/// A successful product holds what `f` gives for every pair of a left and a
/// right entry.
pub proof fn lemma_product_contains<T>(f: spec_fn(T, T) -> Result<T, Error>, l: Seq<T>, r: Seq<T>, out: Seq<T>, p: int, q: int)
    requires
        product_spec(f, l, r) == Ok::<Seq<T>, Error>(out),
        0 <= p < l.len(),
        0 <= q < r.len(),
    ensures
        f(l[p], r[q]) is Ok,
        out.contains(f(l[p], r[q])->Ok_0),
    decreases l.len(),
{
    let t = l.drop_last();
    let prefix = product_spec(f, t, r)->Ok_0;
    let row = map_seq_spec(fix_left(f, l.last()), r)->Ok_0;
    assert(out == prefix + row);
    if p == l.len() - 1 {
        lemma_map_seq_entry(fix_left(f, l.last()), r, row, q);
        assert(l.last() == l[p]);
        assert(out[prefix.len() + q] == row[q]);
    } else {
        lemma_product_contains(f, t, r, prefix, p, q);
        assert(t[p] == l[p]);
        let k = choose|k: int| 0 <= k < prefix.len() && prefix[k] == f(l[p], r[q])->Ok_0;
        assert(out[k] == prefix[k]);
    }
}

/// A successful combination of columns gives, for each column, the
/// combination of that column.
pub proof fn lemma_columns_product_entry<T>(
    f: Option<spec_fn(T, T) -> Result<T, Error>>,
    kind: CategoryKind,
    ls: Seq<Option<Seq<T>>>,
    rs: Seq<Option<Seq<T>>>,
    k: nat,
    out: Seq<Option<Seq<T>>>,
    i: int,
)
    requires
        columns_product_spec(f, kind, ls, rs, k) == Ok::<Seq<Option<Seq<T>>>, Error>(out),
        0 <= i < k,
    ensures
        out.len() == k,
        column_product_spec(f, kind, ls[i], rs[i]) == Ok::<Option<Seq<T>>, Error>(out[i]),
    decreases k,
{
    let prefix = columns_product_spec(f, kind, ls, rs, (k - 1) as nat)->Ok_0;
    if i < k - 1 {
        lemma_columns_product_entry(f, kind, ls, rs, (k - 1) as nat, prefix, i);
    } else if k > 1 {
        lemma_columns_product_entry(f, kind, ls, rs, (k - 1) as nat, prefix, 0);
    }
    if k == 1 {
        assert(prefix.len() == 0);
    }
}

/// A successful map of columns gives, for each column, the map of that
/// column.
pub proof fn lemma_columns_map_entry<T>(
    f: Option<spec_fn(T) -> Result<T, Error>>,
    kind: CategoryKind,
    cs: Seq<Option<Seq<T>>>,
    k: nat,
    out: Seq<Option<Seq<T>>>,
    i: int,
)
    requires
        columns_map_spec(f, kind, cs, k) == Ok::<Seq<Option<Seq<T>>>, Error>(out),
        0 <= i < k,
    ensures
        out.len() == k,
        column_map_spec(f, kind, cs[i]) == Ok::<Option<Seq<T>>, Error>(out[i]),
    decreases k,
{
    let prefix = columns_map_spec(f, kind, cs, (k - 1) as nat)->Ok_0;
    if i < k - 1 {
        lemma_columns_map_entry(f, kind, cs, (k - 1) as nat, prefix, i);
    } else if k > 1 {
        lemma_columns_map_entry(f, kind, cs, (k - 1) as nat, prefix, 0);
    }
    if k == 1 {
        assert(prefix.len() == 0);
    }
}

/// Successfully derived bounds give, for each column, what `h` gives for
/// the bounds of that column.
pub proof fn lemma_binary_bounds_entry<T>(
    h: spec_fn(Option<T>, Option<T>, Option<T>, Option<T>) -> Result<(Option<T>, Option<T>), Error>,
    lmins: Seq<Option<T>>,
    lmaxs: Seq<Option<T>>,
    rmins: Seq<Option<T>>,
    rmaxs: Seq<Option<T>>,
    k: nat,
    mins: Seq<Option<T>>,
    maxs: Seq<Option<T>>,
    i: int,
)
    requires
        binary_bounds_spec(Some(h), lmins, lmaxs, rmins, rmaxs, k) == Ok::<(Seq<Option<T>>, Seq<Option<T>>), Error>((mins, maxs)),
        0 <= i < k,
    ensures
        mins.len() == k,
        maxs.len() == k,
        h(lmins[i], lmaxs[i], rmins[i], rmaxs[i]) == Ok::<(Option<T>, Option<T>), Error>((mins[i], maxs[i])),
    decreases k,
{
    let (pa, pb) = binary_bounds_spec(Some(h), lmins, lmaxs, rmins, rmaxs, (k - 1) as nat)->Ok_0;
    if i < k - 1 {
        lemma_binary_bounds_entry(h, lmins, lmaxs, rmins, rmaxs, (k - 1) as nat, pa, pb, i);
    } else if k > 1 {
        lemma_binary_bounds_entry(h, lmins, lmaxs, rmins, rmaxs, (k - 1) as nat, pa, pb, 0);
    }
    if k == 1 {
        assert(pa.len() == 0 && pb.len() == 0);
    }
}

pub proof fn lemma_binary_bounds_len<T>(
    f: Option<spec_fn(Option<T>, Option<T>, Option<T>, Option<T>) -> Result<(Option<T>, Option<T>), Error>>,
    lmins: Seq<Option<T>>,
    lmaxs: Seq<Option<T>>,
    rmins: Seq<Option<T>>,
    rmaxs: Seq<Option<T>>,
    k: nat,
)
    requires
        binary_bounds_spec(f, lmins, lmaxs, rmins, rmaxs, k) is Ok,
    ensures
        binary_bounds_spec(f, lmins, lmaxs, rmins, rmaxs, k)->Ok_0.0.len() == k,
        binary_bounds_spec(f, lmins, lmaxs, rmins, rmaxs, k)->Ok_0.1.len() == k,
    decreases k,
{
    if k > 0 {
        lemma_binary_bounds_len(f, lmins, lmaxs, rmins, rmaxs, (k - 1) as nat);
    }
}

} // verus!
