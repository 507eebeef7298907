//! What holds of the builtins and of lifting, whatever the arithmetic.

use vstd::prelude::*;
use crate::arith::{is_zero, yields, Arith};
use crate::broadcast::{cell, fails_at, lifted, Relation};
use crate::builtins::{
    adds, applies, divides, dividing, polygon_of, shifted, subtracts, translates, translating,
    vertices_of,
};
use crate::defs::{lookup, Element, EvalError, FunctionType, Stmt, Value};
use crate::exec::{runs, steps, State};
use crate::expr::evaluates;

verus! {

/// In the arithmetic, taking `b` away from `a + b` gives `a` back. This
/// holds of an exact arithmetic; one that rounds keeps to it on some numbers
/// only.
pub open spec fn differences_undo_sums<N: Fn(Arith) -> u32>(num: &N) -> bool {
    forall|a: u32, b: u32, s: u32, d: u32|
        #![trigger yields(num, Arith::Add(a, b), s), yields(num, Arith::Sub(s, b), d)]
        yields(num, Arith::Add(a, b), s) && yields(num, Arith::Sub(s, b), d) ==> d == a
}

/// Where the differences of the arithmetic undo its sums, subtracting undoes
/// adding: taking `e2` away from the sum of `e1` and `e2` succeeds and gives
/// `e1` back, for numbers and for vectors.
pub proof fn law_sub_undoes_add<N: Fn(Arith) -> u32>(
    num: &N,
    e1: Element,
    e2: Element,
    sum: Element,
    r: Result<Element, EvalError>,
)
    requires
        differences_undo_sums(num),
        adds(num, e1, e2, Ok(sum)),
        subtracts(num, sum, e2, r),
    ensures
        r == Ok::<Element, EvalError>(e1),
{
}

/// The arithmetic gives the same answers to `a + b` as to `b + a`.
pub open spec fn sums_commute<N: Fn(Arith) -> u32>(num: &N) -> bool {
    forall|a: u32, b: u32, c: u32| #[trigger]
        yields(num, Arith::Add(a, b), c) ==> yields(num, Arith::Add(b, a), c)
}

/// Adding takes the same pairs of kinds in either order: it refuses `e2` and
/// `e1` where it refuses `e1` and `e2`.
pub proof fn law_add_takes_both_orders<N: Fn(Arith) -> u32>(num: &N, e1: Element, e2: Element)
    ensures
        adds(num, e1, e2, Err(EvalError::TypeMismatch)) <==> adds(
            num,
            e2,
            e1,
            Err(EvalError::TypeMismatch),
        ),
{
}

/// Where the sums of the arithmetic commute, adding commutes: an outcome of
/// adding `e2` to `e1` is an outcome of adding `e1` to `e2`.
pub proof fn law_add_commutes<N: Fn(Arith) -> u32>(
    num: &N,
    e1: Element,
    e2: Element,
    r: Result<Element, EvalError>,
)
    requires
        sums_commute(num),
        adds(num, e1, e2, r),
    ensures
        adds(num, e2, e1, r),
{
}

/// Lifted over a collection of `m` elements and one of `n`, an operation
/// gives a collection of `m * n` elements, and the result for the `i`-th of
/// the first with the `j`-th of the second stands at `i * n + j`: the first
/// collection is the outer loop, the second the inner one.
pub proof fn law_cross_product(rel: Relation, c: Seq<Element>, d: Seq<Element>, v: Value)
    requires
        lifted(rel, Value::Collection(c), Value::Collection(d), Ok(v)),
    ensures
        v is Collection,
        v.items().len() == c.len() * d.len(),
        forall|i: int, j: int|
            0 <= i < c.len() && 0 <= j < d.len() ==> {
                let at = #[trigger] cell(i, j, d.len() as int);
                &&& at == i * d.len() + j
                &&& 0 <= at < v.items().len()
                &&& rel(c[i], d[j], Ok(v.items()[at]))
            },
{
    assert forall|i: int, j: int| 0 <= i < c.len() && 0 <= j < d.len() implies {
        let at = #[trigger] cell(i, j, d.len() as int);
        &&& at == i * d.len() + j
        &&& 0 <= at < v.items().len()
        &&& rel(c[i], d[j], Ok(v.items()[at]))
    } by {
        let n = d.len() as int;
        assert(0 <= i * n && i * n + n <= c.len() * n) by (nonlinear_arith)
            requires
                0 <= i < c.len(),
                0 <= n,
        ;
    }
}

/// Lifted over two single elements, an operation gives what it gives on the
/// two: a single element, or its error.
pub proof fn law_two_elements(rel: Relation, x: Element, y: Element, r: Result<Value, EvalError>)
    ensures
        lifted(rel, Value::Element(x), Value::Element(y), r) <==> match r {
            Ok(Value::Element(z)) => rel(x, y, Ok(z)),
            Ok(Value::Collection(_)) => false,
            Err(e) => rel(x, y, Err(e)),
        },
{
    let xs = Value::Element(x).items();
    let ys = Value::Element(y).items();
    assert(xs[0] == x && ys[0] == y);
    match r {
        Ok(Value::Element(z)) => {
            let out = Value::Element(z).items();
            if rel(x, y, Ok(z)) {
                assert forall|i: int, j: int| 0 <= i < xs.len() && 0 <= j < ys.len() implies rel(
                    xs[i],
                    ys[j],
                    Ok(out[#[trigger] cell(i, j, ys.len() as int)]),
                ) by {
                    assert(cell(i, j, 1) == 0);
                }
            }
            if lifted(rel, Value::Element(x), Value::Element(y), r) {
                assert(rel(xs[0], ys[0], Ok(out[cell(0, 0, 1)])));
            }
        },
        Ok(Value::Collection(_)) => {},
        Err(e) => {
            if rel(x, y, Err(e)) {
                assert(fails_at(rel, xs, ys, 0, 0, e));
            }
            if lifted(rel, Value::Element(x), Value::Element(y), r) {
                let (i, j) = choose|i: int, j: int| fails_at(rel, xs, ys, i, j, e);
            }
        },
    }
}

/// Lifted over a collection and a single element, or over a single element
/// and a collection, an operation gives a collection of the same size, in
/// the same order.
pub proof fn law_one_against_many(rel: Relation, c: Seq<Element>, e: Element, v: Value)
    ensures
        lifted(rel, Value::Collection(c), Value::Element(e), Ok(v)) ==> v is Collection
            && v.items().len() == c.len() && forall|i: int|
            0 <= i < c.len() ==> rel(c[i], e, Ok(#[trigger] v.items()[i])),
        lifted(rel, Value::Element(e), Value::Collection(c), Ok(v)) ==> v is Collection
            && v.items().len() == c.len() && forall|i: int|
            0 <= i < c.len() ==> rel(e, c[i], Ok(#[trigger] v.items()[i])),
{
    if lifted(rel, Value::Collection(c), Value::Element(e), Ok(v)) {
        assert(v.items().len() == c.len()) by (nonlinear_arith)
            requires
                v.items().len() == c.len() * 1,
        ;
        assert forall|i: int| 0 <= i < c.len() implies rel(
            c[i],
            e,
            Ok(#[trigger] v.items()[i]),
        ) by {
            assert(cell(i, 0, 1) == i);
        }
    }
    if lifted(rel, Value::Element(e), Value::Collection(c), Ok(v)) {
        assert(v.items().len() == c.len()) by (nonlinear_arith)
            requires
                v.items().len() == 1 * c.len(),
        ;
        assert forall|i: int| 0 <= i < c.len() implies rel(
            e,
            c[i],
            Ok(#[trigger] v.items()[i]),
        ) by {
            assert(cell(0, i, c.len() as int) == i);
        }
    }
}

/// Translating the polygon `p` that `polygon` made of `points` by the vector
/// `(dx, dy)` succeeds, and gives a polygon with as many vertices as there
/// are points, each the point at the same place shifted by the vector.
pub proof fn law_translate_polygon<N: Fn(Arith) -> u32>(
    num: &N,
    points: Seq<Element>,
    dx: u32,
    dy: u32,
    p: Value,
    r: Result<Value, EvalError>,
)
    requires
        applies(num, FunctionType::Polygon, seq![Value::Collection(points)], Ok(p)),
        applies(num, FunctionType::Translate, seq![p, Value::Element(Element::Vector(dx, dy))], r),
    ensures
        r matches Ok(Value::Element(Element::Polygon(qs))) && qs.len() == points.len() && forall|
            i: int,
        |
            0 <= i < points.len() ==> (points[i] matches Element::Point(x, y) && shifted(
                num,
                (x, y),
                (dx, dy),
                #[trigger] qs[i],
            )),
{
    let ps = vertices_of(points);
    let v = Element::Vector(dx, dy);
    match r {
        Ok(out) => {
            assert(out.items().len() == 1) by (nonlinear_arith)
                requires
                    out.items().len() == p.items().len() * Value::Element(v).items().len(),
                    p.items().len() == 1,
                    Value::Element(v).items().len() == 1,
            ;
            assert(translates(num, Element::Polygon(ps), v, Ok(out.items()[cell(0, 0, 1)])));
            let qs = out.items()[0]->Polygon_0;
            assert forall|i: int| 0 <= i < points.len() implies (points[i] matches Element::Point(
                x,
                y,
            ) && shifted(num, (x, y), (dx, dy), #[trigger] qs[i])) by {}
        },
        Err(e) => {
            let (i, j) = choose|i: int, j: int|
                fails_at(translating(num), p.items(), Value::Element(v).items(), i, j, e);
        },
    }
}

/// Dividing any number by a zero fails, and the error is
/// [`EvalError::DivisionByZero`].
pub proof fn law_divide_by_zero<N: Fn(Arith) -> u32>(
    num: &N,
    a: u32,
    z: u32,
    r: Result<Value, EvalError>,
)
    requires
        is_zero(z),
        applies(
            num,
            FunctionType::Div,
            seq![Value::Element(Element::Number(a)), Value::Element(Element::Number(z))],
            r,
        ),
    ensures
        r == Err::<Value, EvalError>(EvalError::DivisionByZero),
{
    let x = Value::Element(Element::Number(a));
    let y = Value::Element(Element::Number(z));
    match r {
        Ok(out) => {
            assert(divides(
                num,
                Element::Number(a),
                Element::Number(z),
                Ok(out.items()[cell(0, 0, 1)]),
            ));
        },
        Err(e) => {
            let (i, j) = choose|i: int, j: int|
                fails_at(dividing(num), x.items(), y.items(), i, j, e);
        },
    }
}

/// A polygon is not made of a collection that holds anything but points:
/// the error is [`EvalError::TypeMismatch`].
pub proof fn law_polygon_of_points_only(items: Seq<Element>, i: int)
    requires
        0 <= i < items.len(),
        !(items[i] is Point),
    ensures
        polygon_of(seq![Value::Collection(items)]) == Err::<Value, EvalError>(
            EvalError::TypeMismatch,
        ),
{
}

/// A builtin that is given another number of arguments than it takes fails,
/// whatever the arguments are, and the error is
/// [`EvalError::ArityMismatch`].
pub proof fn law_arity_first<N: Fn(Arith) -> u32>(
    num: &N,
    f: FunctionType,
    args: Seq<Value>,
    r: Result<Value, EvalError>,
)
    requires
        args.len() != f.arity(),
        applies(num, f, args, r),
    ensures
        r == Err::<Value, EvalError>(EvalError::ArityMismatch),
{
}

/// A name that is bound stays bound: a statement may bind a name anew, and
/// takes no binding away. So the builtins stay bound unless they are bound
/// anew.
pub proof fn law_names_stay_bound<N: Fn(Arith) -> u32>(
    num: &N,
    start: State,
    program: Seq<Stmt>,
    end: State,
    name: Seq<char>,
)
    requires
        runs(num, start, program, end),
        start.env.contains_key(name),
    ensures
        end.env.contains_key(name),
    decreases program.len(),
{
    if program.len() > 0 {
        let mid = choose|mid: State|
            runs(num, start, program.drop_last(), mid) && #[trigger] steps(
                num,
                mid,
                program.last(),
                end,
            );
        law_names_stay_bound(num, start, program.drop_last(), mid, name);
        match program.last() {
            Stmt::Assignment { ident, expr } => {
                let v = choose|v: Value|
                    evaluates(num, mid.env, expr, Ok(v)) && end.env == #[trigger] mid.env.insert(
                        ident,
                        v,
                    );
            },
            Stmt::Output { filename, expr } => {},
        }
    }
}

/// What is bound last is what a name stands for, and the other names stand
/// for what they stood for.
pub proof fn law_latest_binding_wins(
    env: Map<Seq<char>, Value>,
    name: Seq<char>,
    v: Value,
    other: Seq<char>,
)
    ensures
        lookup(env.insert(name, v), name) == Ok::<Value, EvalError>(v),
        other != name ==> lookup(env.insert(name, v), other) == lookup(env, other),
{
}

} // verus!
