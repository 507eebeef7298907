//! Lifting an element-level operation over single values and collections.

use vstd::prelude::*;
use crate::defs::{
    element_outcome, elements, outcome, Element, ElementType, EvalError, Object, Value,
};

verus! {

/// An outcome of an operation on two elements.
pub type Outcome = Result<Element, EvalError>;

/// An element-level operation, as the relation between its two operands and
/// an outcome that it may have on them.
pub type Relation = spec_fn(Element, Element, Outcome) -> bool;

/// Where the result for the pair `(i, j)` stands in a cross product whose
/// second operand has `n` elements: rows follow the first operand.
pub open spec fn cell(i: int, j: int, n: int) -> int {
    i * n + j
}

/// The pair `(i2, j2)` is visited before the pair `(i, j)`.
pub open spec fn before(i2: int, j2: int, i: int, j: int) -> bool {
    i2 < i || (i2 == i && j2 < j)
}

/// `out` is a possible cross product of `xs` and `ys` under `rel`.
pub open spec fn crossed(
    rel: Relation,
    xs: Seq<Element>,
    ys: Seq<Element>,
    out: Seq<Element>,
) -> bool {
    &&& out.len() == xs.len() * ys.len()
    &&& forall|i: int, j: int|
        0 <= i < xs.len() && 0 <= j < ys.len() ==> rel(
            xs[i],
            ys[j],
            Ok(out[#[trigger] cell(i, j, ys.len() as int)]),
        )
}

/// The pair `(i, j)` may succeed.
pub open spec fn passes_at(
    rel: Relation,
    xs: Seq<Element>,
    ys: Seq<Element>,
    i: int,
    j: int,
) -> bool {
    exists|z: Element| rel(xs[i], ys[j], Ok(z))
}

/// The pair `(i, j)` may fail with `e` after every earlier pair succeeded.
pub open spec fn fails_at(
    rel: Relation,
    xs: Seq<Element>,
    ys: Seq<Element>,
    i: int,
    j: int,
    e: EvalError,
) -> bool {
    &&& 0 <= i < xs.len()
    &&& 0 <= j < ys.len()
    &&& rel(xs[i], ys[j], Err(e))
    &&& forall|i2: int, j2: int|
        0 <= i2 < xs.len() && 0 <= j2 < ys.len() && before(i2, j2, i, j) ==> #[trigger] passes_at(
            rel,
            xs,
            ys,
            i2,
            j2,
        )
}

/// `r` is a possible outcome of `rel` lifted over `a` and `b`.
///
/// Two single elements give a single element. Otherwise the result is a
/// collection that holds one element for every pair, the pairs taken row by
/// row: the first operand's elements in order, and for each of them the
/// second operand's in order. The first pair that fails ends the operation
/// with its error.
pub open spec fn lifted(rel: Relation, a: Value, b: Value, r: Result<Value, EvalError>) -> bool {
    match r {
        Ok(v) => {
            &&& v is Element <==> a is Element && b is Element
            &&& crossed(rel, a.items(), b.items(), v.items())
        },
        Err(e) => exists|i: int, j: int| fails_at(rel, a.items(), b.items(), i, j, e),
    }
}

/// What `fun` does, seen on the models of its operands and outcome.
pub open spec fn relation_of<F: Fn(&ElementType, &ElementType) -> Result<ElementType, EvalError>>(
    fun: &F,
) -> Relation {
    |x: Element, y: Element, r: Result<Element, EvalError>|
        exists|e1: ElementType, e2: ElementType, z: Result<ElementType, EvalError>|
            e1@ == x && e2@ == y && element_outcome(z) == r && #[trigger] call_ensures(
                *fun,
                (&e1, &e2),
                z,
            )
}

/// Lifting keeps what holds of every outcome of the element-level operation:
/// an outcome of `rel1` lifted is an outcome of any `rel2` that admits all
/// that `rel1` admits.
pub proof fn lemma_lifted_implies(
    rel1: Relation,
    rel2: Relation,
    a: Value,
    b: Value,
    r: Result<Value, EvalError>,
)
    requires
        lifted(rel1, a, b, r),
        forall|x: Element, y: Element, z: Result<Element, EvalError>| #[trigger]
            rel1(x, y, z) ==> rel2(x, y, z),
    ensures
        lifted(rel2, a, b, r),
{
    let xs = a.items();
    let ys = b.items();
    match r {
        Ok(v) => {
            assert forall|i: int, j: int| 0 <= i < xs.len() && 0 <= j < ys.len() implies rel2(
                xs[i],
                ys[j],
                Ok(v.items()[#[trigger] cell(i, j, ys.len() as int)]),
            ) by {}
        },
        Err(e) => {
            let (i, j) = choose|i: int, j: int| fails_at(rel1, xs, ys, i, j, e);
            assert forall|i2: int, j2: int|
                0 <= i2 < xs.len() && 0 <= j2 < ys.len() && before(i2, j2, i, j) implies
                #[trigger] passes_at(rel2, xs, ys, i2, j2) by {
                assert(passes_at(rel1, xs, ys, i2, j2));
                let z = choose|z: Element| rel1(xs[i2], ys[j2], Ok(z));
            }
            assert(fails_at(rel2, xs, ys, i, j, e));
        },
    }
}

/// Every place in a cross product belongs to one pair.
pub proof fn lemma_cell_of(k: int, m: int, n: int) -> (ij: (int, int))
    requires
        0 <= k < m * n,
        0 <= m,
        0 <= n,
    ensures
        0 <= ij.0 < m,
        0 <= ij.1 < n,
        cell(ij.0, ij.1, n) == k,
{
    assert(n > 0) by (nonlinear_arith)
        requires
            0 <= k < m * n,
            0 <= m,
            0 <= n,
    ;
    let i = k / n;
    let j = k % n;
    assert(i * n + j == k && 0 <= j < n) by (nonlinear_arith)
        requires
            i == k / n,
            j == k % n,
            n > 0,
    ;
    assert(0 <= i < m) by (nonlinear_arith)
        requires
            i * n + j == k,
            0 <= j < n,
            0 <= k < m * n,
            n > 0,
    ;
    (i, j)
}

proof fn lemma_cell_order(i2: int, j2: int, i: int, j: int, n: int)
    requires
        0 <= i2,
        0 <= j2 < n,
        0 <= j,
        before(i2, j2, i, j),
    ensures
        0 <= cell(i2, j2, n) < cell(i, j, n),
{
    assert(0 <= i2 * n) by (nonlinear_arith)
        requires
            0 <= i2,
            0 <= n,
    ;
    if i2 < i {
        assert(i2 * n + n <= i * n) by (nonlinear_arith)
            requires
                i2 + 1 <= i,
                0 <= n,
        ;
    }
}

proof fn lemma_next_row(i: int, n: int)
    ensures
        cell(i, n, n) == cell(i + 1, 0, n),
{
    assert(i * n + n == (i + 1) * n) by (nonlinear_arith);
}

/// `fun` accepts every pair of an element of `o1` and an element of `o2`.
pub open spec fn takes_all_pairs<
    F: Fn(&ElementType, &ElementType) -> Result<ElementType, EvalError>,
>(
    fun: &F,
    o1: Object,
    o2: Object,
) -> bool {
    forall|i: int, j: int|
        0 <= i < o1.held().len() && 0 <= j < o2.held().len() ==> call_requires(
            *fun,
            (&#[trigger] o1.held()[i], &#[trigger] o2.held()[j]),
        )
}

/// Lifts `fun` over `o1` and `o2`.
pub fn map2<F: Fn(&ElementType, &ElementType) -> Result<ElementType, EvalError>>(
    fun: &F,
    o1: &Object,
    o2: &Object,
) -> (r: Result<Object, EvalError>)
    requires
        takes_all_pairs(fun, *o1, *o2),
    ensures
        lifted(relation_of(fun), o1@, o2@, outcome(r)),
{
    let m = o1.count();
    let n = o2.count();
    let ghost rel = relation_of(fun);
    let ghost xs = o1@.items();
    let ghost ys = o2@.items();
    let mut out: Vec<ElementType> = Vec::new();
    let mut i: usize = 0;
    while i < m
        invariant
            takes_all_pairs(fun, *o1, *o2),
            rel == relation_of(fun),
            xs == o1@.items(),
            ys == o2@.items(),
            m == xs.len(),
            n == ys.len(),
            i <= m,
            out@.len() == cell(i as int, 0, n as int),
            forall|i2: int, j2: int|
                0 <= i2 < m && 0 <= j2 < n && before(i2, j2, i as int, 0) ==> rel(
                    xs[i2],
                    ys[j2],
                    Ok(out@[#[trigger] cell(i2, j2, n as int)]@),
                ),
        decreases m - i,
    {
        let mut j: usize = 0;
        while j < n
            invariant
                takes_all_pairs(fun, *o1, *o2),
                rel == relation_of(fun),
                xs == o1@.items(),
                ys == o2@.items(),
                m == xs.len(),
                n == ys.len(),
                i < m,
                j <= n,
                out@.len() == cell(i as int, j as int, n as int),
                forall|i2: int, j2: int|
                    0 <= i2 < m && 0 <= j2 < n && before(i2, j2, i as int, j as int) ==> rel(
                        xs[i2],
                        ys[j2],
                        Ok(out@[#[trigger] cell(i2, j2, n as int)]@),
                    ),
            decreases n - j,
        {
            let e1 = o1.item(i);
            let e2 = o2.item(j);
            let z = fun(e1, e2);
            match z {
                Ok(e) => {
                    out.push(e);
                    proof {
                        assert forall|i2: int, j2: int|
                            0 <= i2 < m && 0 <= j2 < n && before(i2, j2, i as int, j + 1)
                            implies rel(
                            xs[i2],
                            ys[j2],
                            Ok(out@[#[trigger] cell(i2, j2, n as int)]@),
                        ) by {
                            if before(i2, j2, i as int, j as int) {
                                lemma_cell_order(i2, j2, i as int, j as int, n as int);
                            }
                        }
                    }
                },
                Err(x) => {
                    proof {
                        assert forall|i2: int, j2: int|
                            0 <= i2 < xs.len() && 0 <= j2 < ys.len() && before(
                                i2,
                                j2,
                                i as int,
                                j as int,
                            ) implies #[trigger] passes_at(rel, xs, ys, i2, j2) by {
                            assert(rel(xs[i2], ys[j2], Ok(out@[cell(i2, j2, n as int)]@)));
                        }
                        assert(fails_at(rel, xs, ys, i as int, j as int, x));
                    }
                    return Err(x);
                },
            }
            j += 1;
        }
        proof {
            lemma_next_row(i as int, n as int);
        }
        i += 1;
    }
    proof {
        assert forall|i2: int, j2: int| 0 <= i2 < xs.len() && 0 <= j2 < ys.len() implies rel(
            xs[i2],
            ys[j2],
            Ok(elements(out@)[#[trigger] cell(i2, j2, ys.len() as int)]),
        ) by {
            lemma_cell_order(i2, j2, m as int, 0, n as int);
        }
    }
    match (o1, o2) {
        (Object::Element(_), Object::Element(_)) => {
            assert(out@.len() == 1) by (nonlinear_arith)
                requires
                    out@.len() == xs.len() * ys.len(),
                    xs.len() == 1,
                    ys.len() == 1,
            ;
            let e = out.pop().unwrap();
            Ok(Object::Element(e))
        },
        _ => Ok(Object::Collection(out)),
    }
}

} // verus!
