//! With an arithmetic that answers each request in one way only, every
//! operation of the library has one outcome only.

use vstd::prelude::*;
use crate::arith::{yields, Arith};
use crate::broadcast::{
    before, cell, fails_at, lemma_cell_of, lifted, passes_at, Outcome, Relation,
};
use crate::builtins::{
    adding, adds, all_turned, applies, divides, dividing, making_point, making_vector, multiplies,
    multiplying, rotates, rotating, subtracting, subtracts, translates, translating, turned,
    turned_through, turned_with, Turn,
};
use crate::defs::{flattened, Element, EvalError, Expr, FunctionType, Stmt, Value};
use crate::exec::{breaks_at, drawn, halts, run_outcome, runs, steps, Picture, State};
use crate::expr::{all_evaluate, callee, cut, evaluate_in_turn, evaluates, stops_at};

verus! {

/// The arithmetic answers each request in one way only.
pub open spec fn single_valued<N: Fn(Arith) -> u32>(num: &N) -> bool {
    forall|op: Arith, c1: u32, c2: u32|
        #![trigger yields(num, op, c1), yields(num, op, c2)]
        yields(num, op, c1) && yields(num, op, c2) ==> c1 == c2
}

/// The operation has one outcome only on each pair of operands.
pub open spec fn functional(rel: Relation) -> bool {
    forall|x: Element, y: Element, z1: Outcome, z2: Outcome|
        #![trigger rel(x, y, z1), rel(x, y, z2)]
        rel(x, y, z1) && rel(x, y, z2) ==> z1 == z2
}

/// A functional operation, lifted, has one outcome only.
pub proof fn law_lifted_once(
    rel: Relation,
    a: Value,
    b: Value,
    r1: Result<Value, EvalError>,
    r2: Result<Value, EvalError>,
)
    requires
        functional(rel),
        lifted(rel, a, b, r1),
        lifted(rel, a, b, r2),
    ensures
        r1 == r2,
{
    let xs = a.items();
    let ys = b.items();
    let n = ys.len() as int;
    match (r1, r2) {
        (Ok(v1), Ok(v2)) => {
            assert forall|k: int| 0 <= k < v1.items().len() implies v1.items()[k]
                == v2.items()[k] by {
                let (i, j) = lemma_cell_of(k, xs.len() as int, n);
            }
            assert(v1.items() =~= v2.items());
            assert(seq![v1.items()[0]][0] == v1.items()[0]);
        },
        (Ok(v), Err(e)) => {
            let (i, j) = choose|i: int, j: int| fails_at(rel, xs, ys, i, j, e);
            assert(rel(xs[i], ys[j], Ok(v.items()[cell(i, j, n)])));
        },
        (Err(e), Ok(v)) => {
            let (i, j) = choose|i: int, j: int| fails_at(rel, xs, ys, i, j, e);
            assert(rel(xs[i], ys[j], Ok(v.items()[cell(i, j, n)])));
        },
        (Err(e1), Err(e2)) => {
            let (i1, j1) = choose|i: int, j: int| fails_at(rel, xs, ys, i, j, e1);
            let (i2, j2) = choose|i: int, j: int| fails_at(rel, xs, ys, i, j, e2);
            if before(i1, j1, i2, j2) {
                assert(passes_at(rel, xs, ys, i1, j1));
            } else if before(i2, j2, i1, j1) {
                assert(passes_at(rel, xs, ys, i2, j2));
            }
        },
    }
}

/// With a single-valued arithmetic, a vertex has one place only after a
/// turn.
pub proof fn lemma_turned_once<N: Fn(Arith) -> u32>(
    num: &N,
    cos: u32,
    sin: u32,
    pivot: (u32, u32),
    p: (u32, u32),
    q1: (u32, u32),
    q2: (u32, u32),
)
    requires
        single_valued(num),
        turned(num, cos, sin, pivot, p, q1),
        turned(num, cos, sin, pivot, p, q2),
    ensures
        q1 == q2,
{
}

/// With a single-valued arithmetic, a run of vertices has one run of places
/// only after a turn.
pub proof fn lemma_all_turned_once<N: Fn(Arith) -> u32>(
    num: &N,
    angle: u32,
    pivot: (u32, u32),
    ps: Seq<(u32, u32)>,
    qs1: Seq<(u32, u32)>,
    qs2: Seq<(u32, u32)>,
)
    requires
        single_valued(num),
        all_turned(num, angle, pivot, ps, qs1),
        all_turned(num, angle, pivot, ps, qs2),
    ensures
        qs1 == qs2,
{
    let (c1, s1) = choose|cos: u32, sin: u32| turned_with(num, angle, cos, sin, pivot, ps, qs1);
    assert forall|i: int| 0 <= i < ps.len() implies qs1[i] == qs2[i] by {
        lemma_turned_once(num, c1, s1, pivot, ps[i], qs1[i], qs2[i]);
    }
}

/// With a single-valued arithmetic, each of the element-level operations has
/// one outcome only.
pub proof fn law_elements_once<N: Fn(Arith) -> u32>(
    num: &N,
    e1: Element,
    e2: Element,
    e3: Element,
    r1: Result<Element, EvalError>,
    r2: Result<Element, EvalError>,
)
    requires
        single_valued(num),
    ensures
        adds(num, e1, e2, r1) && adds(num, e1, e2, r2) ==> r1 == r2,
        subtracts(num, e1, e2, r1) && subtracts(num, e1, e2, r2) ==> r1 == r2,
        multiplies(num, e1, e2, r1) && multiplies(num, e1, e2, r2) ==> r1 == r2,
        divides(num, e1, e2, r1) && divides(num, e1, e2, r2) ==> r1 == r2,
        translates(num, e1, e2, r1) && translates(num, e1, e2, r2) ==> r1 == r2,
        rotates(num, e1, e2, e3, r1) && rotates(num, e1, e2, e3, r2) ==> r1 == r2,
{
    if translates(num, e1, e2, r1) && translates(num, e1, e2, r2) {
        if e1 is Polygon && e2 is Vector {
            let qs1 = r1->Ok_0->Polygon_0;
            let qs2 = r2->Ok_0->Polygon_0;
            assert forall|i: int| 0 <= i < qs1.len() implies qs1[i] == qs2[i] by {}
            assert(qs1 =~= qs2);
        }
    }
    if rotates(num, e1, e2, e3, r1) && rotates(num, e1, e2, e3, r2) {
        match (e3, e1, e2) {
            (Element::Point(x0, y0), Element::Polygon(ps), Element::Number(t)) => {
                let qs1 = r1->Ok_0->Polygon_0;
                let qs2 = r2->Ok_0->Polygon_0;
                lemma_all_turned_once(num, t, (x0, y0), ps, qs1, qs2);
            },
            (Element::Point(x0, y0), Element::Point(x, y), Element::Number(t)) => {
                let q1 = (r1->Ok_0->Point_0, r1->Ok_0->Point_1);
                let q2 = (r2->Ok_0->Point_0, r2->Ok_0->Point_1);
                lemma_all_turned_once(num, t, (x0, y0), seq![(x, y)], seq![q1], seq![q2]);
                assert(seq![q1][0] == seq![q2][0]);
            },
            _ => {},
        }
    }
}

/// With a single-valued arithmetic, the relations that the builtins lift are
/// functional.
pub proof fn lemma_relations_functional<N: Fn(Arith) -> u32>(num: &N, pivot: Element)
    requires
        single_valued(num),
    ensures
        functional(making_vector()),
        functional(making_point()),
        functional(adding(num)),
        functional(subtracting(num)),
        functional(multiplying(num)),
        functional(dividing(num)),
        functional(translating(num)),
        functional(rotating(num, pivot)),
{
    assert forall|x: Element, y: Element, z1: Outcome, z2: Outcome|
        #![trigger adding(num)(x, y, z1), adding(num)(x, y, z2)]
        adding(num)(x, y, z1) && adding(num)(x, y, z2) implies z1 == z2 by {
        law_elements_once(num, x, y, pivot, z1, z2);
    }
    assert forall|x: Element, y: Element, z1: Outcome, z2: Outcome|
        #![trigger subtracting(num)(x, y, z1), subtracting(num)(x, y, z2)]
        subtracting(num)(x, y, z1) && subtracting(num)(x, y, z2) implies z1 == z2 by {
        law_elements_once(num, x, y, pivot, z1, z2);
    }
    assert forall|x: Element, y: Element, z1: Outcome, z2: Outcome|
        #![trigger multiplying(num)(x, y, z1), multiplying(num)(x, y, z2)]
        multiplying(num)(x, y, z1) && multiplying(num)(x, y, z2) implies z1 == z2 by {
        law_elements_once(num, x, y, pivot, z1, z2);
    }
    assert forall|x: Element, y: Element, z1: Outcome, z2: Outcome|
        #![trigger dividing(num)(x, y, z1), dividing(num)(x, y, z2)]
        dividing(num)(x, y, z1) && dividing(num)(x, y, z2) implies z1 == z2 by {
        law_elements_once(num, x, y, pivot, z1, z2);
    }
    assert forall|x: Element, y: Element, z1: Outcome, z2: Outcome|
        #![trigger translating(num)(x, y, z1), translating(num)(x, y, z2)]
        translating(num)(x, y, z1) && translating(num)(x, y, z2) implies z1 == z2 by {
        law_elements_once(num, x, y, pivot, z1, z2);
    }
    assert forall|x: Element, y: Element, z1: Outcome, z2: Outcome|
        #![trigger rotating(num, pivot)(x, y, z1), rotating(num, pivot)(x, y, z2)]
        rotating(num, pivot)(x, y, z1) && rotating(num, pivot)(x, y, z2) implies z1 == z2 by {
        law_elements_once(num, x, y, pivot, z1, z2);
    }
}

/// With a single-valued arithmetic, a builtin has one outcome only on its
/// arguments.
pub proof fn law_applies_once<N: Fn(Arith) -> u32>(
    num: &N,
    f: FunctionType,
    args: Seq<Value>,
    r1: Result<Value, EvalError>,
    r2: Result<Value, EvalError>,
)
    requires
        single_valued(num),
        applies(num, f, args, r1),
        applies(num, f, args, r2),
    ensures
        r1 == r2,
{
    if args.len() == f.arity() {
        let pivot = if f == FunctionType::Rotate {
            args[2].items()[0]
        } else {
            Element::Number(0)
        };
        lemma_relations_functional(num, pivot);
        let rel = match f {
            FunctionType::Vector => making_vector(),
            FunctionType::Point => making_point(),
            FunctionType::Add => adding(num),
            FunctionType::Sub => subtracting(num),
            FunctionType::Mul => multiplying(num),
            FunctionType::Div => dividing(num),
            FunctionType::Translate => translating(num),
            _ => rotating(num, pivot),
        };
        if f != FunctionType::Polygon && (f == FunctionType::Rotate ==> args[2] is Element
            && args[2].items()[0] is Point) {
            law_lifted_once(rel, args[0], args[1], r1, r2);
        }
    }
}

/// With a single-valued arithmetic, a run of expressions evaluates in one
/// way only: to one run of values, or to one failure.
pub proof fn lemma_in_turn_once<N: Fn(Arith) -> u32>(
    num: &N,
    env: Map<Seq<char>, Value>,
    items: Seq<Expr>,
    r1: Result<Seq<Value>, EvalError>,
    r2: Result<Seq<Value>, EvalError>,
)
    requires
        single_valued(num),
        evaluate_in_turn(num, env, items, r1),
        evaluate_in_turn(num, env, items, r2),
    ensures
        r1 == r2,
    decreases items, 0nat,
{
    match (r1, r2) {
        (Ok(vals1), Ok(vals2)) => {
            assert forall|i: int| 0 <= i < items.len() implies vals1[i] == vals2[i] by {
                law_evaluates_once(num, env, items[i], Ok(vals1[i]), Ok(vals2[i]));
            }
            assert(vals1 =~= vals2);
        },
        (Ok(vals), Err(e)) => {
            let (k, some) = choose|k: int, some: Seq<Value>| #[trigger]
                cut(items, k, some) && stops_at(num, env, items, k, some, e);
            law_evaluates_once(num, env, items[k], Ok(vals[k]), Err(e));
        },
        (Err(e), Ok(vals)) => {
            let (k, some) = choose|k: int, some: Seq<Value>| #[trigger]
                cut(items, k, some) && stops_at(num, env, items, k, some, e);
            law_evaluates_once(num, env, items[k], Ok(vals[k]), Err(e));
        },
        (Err(e1), Err(e2)) => {
            let (k1, some1) = choose|k: int, some: Seq<Value>| #[trigger]
                cut(items, k, some) && stops_at(num, env, items, k, some, e1);
            let (k2, some2) = choose|k: int, some: Seq<Value>| #[trigger]
                cut(items, k, some) && stops_at(num, env, items, k, some, e2);
            if k1 < k2 {
                law_evaluates_once(num, env, items[k1], Ok(some2[k1]), Err(e1));
            } else if k2 < k1 {
                law_evaluates_once(num, env, items[k2], Ok(some1[k2]), Err(e2));
            } else {
                law_evaluates_once(num, env, items[k1], Err(e1), Err(e2));
            }
        },
    }
}

/// With a single-valued arithmetic, an expression has one outcome only in
/// an environment.
pub proof fn law_evaluates_once<N: Fn(Arith) -> u32>(
    num: &N,
    env: Map<Seq<char>, Value>,
    expr: Expr,
    r1: Result<Value, EvalError>,
    r2: Result<Value, EvalError>,
)
    requires
        single_valued(num),
        evaluates(num, env, expr, r1),
        evaluates(num, env, expr, r2),
    ensures
        r1 == r2,
    decreases expr, 1nat,
{
    match expr {
        Expr::Number(_) => {},
        Expr::Ident(_) => {},
        Expr::Collection(items) => {
            let t1: Result<Seq<Value>, EvalError> = match r1 {
                Ok(v) => Ok(
                    choose|vals: Seq<Value>|
                        all_evaluate(num, env, items, vals) && v == Value::Collection(
                            #[trigger] flattened(vals),
                        ),
                ),
                Err(e) => Err(e),
            };
            let t2: Result<Seq<Value>, EvalError> = match r2 {
                Ok(v) => Ok(
                    choose|vals: Seq<Value>|
                        all_evaluate(num, env, items, vals) && v == Value::Collection(
                            #[trigger] flattened(vals),
                        ),
                ),
                Err(e) => Err(e),
            };
            lemma_in_turn_once(num, env, items, t1, t2);
        },
        Expr::FunctionCall { fun, args } => {
            match callee(env, fun) {
                Err(_) => {},
                Ok(f) => {
                    let t1: Result<Seq<Value>, EvalError> = if exists|vals: Seq<Value>|
                        all_evaluate(num, env, args, vals) && #[trigger] applies(num, f, vals, r1) {
                        Ok(
                            choose|vals: Seq<Value>|
                                all_evaluate(num, env, args, vals) && #[trigger] applies(
                                    num,
                                    f,
                                    vals,
                                    r1,
                                ),
                        )
                    } else {
                        Err(r1->Err_0)
                    };
                    let t2: Result<Seq<Value>, EvalError> = if exists|vals: Seq<Value>|
                        all_evaluate(num, env, args, vals) && #[trigger] applies(num, f, vals, r2) {
                        Ok(
                            choose|vals: Seq<Value>|
                                all_evaluate(num, env, args, vals) && #[trigger] applies(
                                    num,
                                    f,
                                    vals,
                                    r2,
                                ),
                        )
                    } else {
                        Err(r2->Err_0)
                    };
                    lemma_in_turn_once(num, env, args, t1, t2);
                    if t1 is Ok {
                        law_applies_once(num, f, t1->Ok_0, r1, r2);
                    }
                },
            }
        },
    }
}

/// With a single-valued arithmetic, a statement that may run to a state may
/// run to that state only, and may not fail.
pub proof fn law_steps_once<N: Fn(Arith) -> u32>(
    num: &N,
    before: State,
    stmt: Stmt,
    after1: State,
    after2: State,
    e: EvalError,
)
    requires
        single_valued(num),
        steps(num, before, stmt, after1),
    ensures
        steps(num, before, stmt, after2) ==> after1 == after2,
        !halts(num, before.env, stmt, e),
{
    match stmt {
        Stmt::Assignment { ident, expr } => {
            let v1 = choose|v: Value|
                evaluates(num, before.env, expr, Ok(v)) && after1.env
                    == #[trigger] before.env.insert(ident, v);
            if steps(num, before, stmt, after2) {
                let v2 = choose|v: Value|
                    evaluates(num, before.env, expr, Ok(v)) && after2.env
                        == #[trigger] before.env.insert(ident, v);
                law_evaluates_once(num, before.env, expr, Ok(v1), Ok(v2));
            }
            if halts(num, before.env, stmt, e) {
                law_evaluates_once(num, before.env, expr, Ok(v1), Err(e));
            }
        },
        Stmt::Output { filename, expr } => {
            let v1 = choose|v: Value|
                evaluates(num, before.env, expr, Ok(v)) && (#[trigger] drawn(v) matches Ok(polygons)
                    && after1.shown == before.shown.push(Picture { filename, polygons }));
            if steps(num, before, stmt, after2) {
                let v2 = choose|v: Value|
                    evaluates(num, before.env, expr, Ok(v)) && (#[trigger] drawn(v) matches Ok(
                        polygons,
                    ) && after2.shown == before.shown.push(Picture { filename, polygons }));
                law_evaluates_once(num, before.env, expr, Ok(v1), Ok(v2));
            }
            if halts(num, before.env, stmt, e) {
                if evaluates(num, before.env, expr, Err(e)) {
                    law_evaluates_once(num, before.env, expr, Ok(v1), Err(e));
                } else {
                    let v = choose|v: Value|
                        evaluates(num, before.env, expr, Ok(v)) && #[trigger] drawn(v) == Err::<
                            Seq<Seq<(u32, u32)>>,
                            EvalError,
                        >(e);
                    law_evaluates_once(num, before.env, expr, Ok(v1), Ok(v));
                }
            }
        },
    }
}

/// With a single-valued arithmetic, a statement fails in one way only.
pub proof fn law_halts_once<N: Fn(Arith) -> u32>(
    num: &N,
    env: Map<Seq<char>, Value>,
    stmt: Stmt,
    e1: EvalError,
    e2: EvalError,
)
    requires
        single_valued(num),
        halts(num, env, stmt, e1),
        halts(num, env, stmt, e2),
    ensures
        e1 == e2,
{
    let expr = match stmt {
        Stmt::Assignment { ident, expr } => expr,
        Stmt::Output { filename, expr } => expr,
    };
    let r1: Result<Value, EvalError> = if evaluates(num, env, expr, Err(e1)) {
        Err(e1)
    } else {
        Ok(
            choose|v: Value|
                evaluates(num, env, expr, Ok(v)) && #[trigger] drawn(v) == Err::<
                    Seq<Seq<(u32, u32)>>,
                    EvalError,
                >(e1),
        )
    };
    let r2: Result<Value, EvalError> = if evaluates(num, env, expr, Err(e2)) {
        Err(e2)
    } else {
        Ok(
            choose|v: Value|
                evaluates(num, env, expr, Ok(v)) && #[trigger] drawn(v) == Err::<
                    Seq<Seq<(u32, u32)>>,
                    EvalError,
                >(e2),
        )
    };
    law_evaluates_once(num, env, expr, r1, r2);
}

/// A run of a program goes through a run of each of its beginnings.
pub proof fn lemma_runs_through<N: Fn(Arith) -> u32>(
    num: &N,
    start: State,
    program: Seq<Stmt>,
    end: State,
    k: int,
) -> (at: (State, State))
    requires
        runs(num, start, program, end),
        0 <= k < program.len(),
    ensures
        runs(num, start, program.take(k), at.0),
        steps(num, at.0, program[k], at.1),
    decreases program.len(),
{
    let mid = choose|mid: State|
        runs(num, start, program.drop_last(), mid) && #[trigger] steps(
            num,
            mid,
            program.last(),
            end,
        );
    if k == program.len() - 1 {
        (mid, end)
    } else {
        let at = lemma_runs_through(num, start, program.drop_last(), mid, k);
        assert(program.drop_last().take(k) =~= program.take(k));
        at
    }
}

/// With a single-valued arithmetic, a program runs from a state to one state
/// only.
pub proof fn law_runs_once<N: Fn(Arith) -> u32>(
    num: &N,
    start: State,
    program: Seq<Stmt>,
    end1: State,
    end2: State,
)
    requires
        single_valued(num),
        runs(num, start, program, end1),
        runs(num, start, program, end2),
    ensures
        end1 == end2,
    decreases program.len(),
{
    if program.len() > 0 {
        let mid1 = choose|mid: State|
            runs(num, start, program.drop_last(), mid) && #[trigger] steps(
                num,
                mid,
                program.last(),
                end1,
            );
        let mid2 = choose|mid: State|
            runs(num, start, program.drop_last(), mid) && #[trigger] steps(
                num,
                mid,
                program.last(),
                end2,
            );
        law_runs_once(num, start, program.drop_last(), mid1, mid2);
        law_steps_once(num, mid1, program.last(), end1, end2, EvalError::TypeMismatch);
    }
}

/// With a single-valued arithmetic, a program has one outcome only from a
/// state: one state at its end, or one failure.
pub proof fn law_run_outcome_once<N: Fn(Arith) -> u32>(
    num: &N,
    start: State,
    program: Seq<Stmt>,
    r1: Result<State, EvalError>,
    r2: Result<State, EvalError>,
)
    requires
        single_valued(num),
        run_outcome(num, start, program, r1),
        run_outcome(num, start, program, r2),
    ensures
        r1 == r2,
{
    match (r1, r2) {
        (Ok(end1), Ok(end2)) => {
            law_runs_once(num, start, program, end1, end2);
        },
        (Ok(end), Err(e)) => {
            lemma_never_both(num, start, program, end, e);
        },
        (Err(e), Ok(end)) => {
            lemma_never_both(num, start, program, end, e);
        },
        (Err(e1), Err(e2)) => {
            let (k1, mid1) = choose|k: int, mid: State| breaks_at(num, start, program, k, mid, e1);
            let (k2, mid2) = choose|k: int, mid: State| breaks_at(num, start, program, k, mid, e2);
            if k1 < k2 {
                assert(program.take(k2).take(k1) =~= program.take(k1));
                let at = lemma_runs_through(num, start, program.take(k2), mid2, k1);
                law_runs_once(num, start, program.take(k1), mid1, at.0);
                law_steps_once(num, mid1, program[k1], at.1, at.1, e1);
            } else if k2 < k1 {
                assert(program.take(k1).take(k2) =~= program.take(k2));
                let at = lemma_runs_through(num, start, program.take(k1), mid1, k2);
                law_runs_once(num, start, program.take(k2), mid2, at.0);
                law_steps_once(num, mid2, program[k2], at.1, at.1, e2);
            } else {
                law_runs_once(num, start, program.take(k1), mid1, mid2);
                law_halts_once(num, mid1.env, program[k1], e1, e2);
            }
        },
    }
}

/// With a single-valued arithmetic, a program that may run to its end may
/// not fail.
pub proof fn lemma_never_both<N: Fn(Arith) -> u32>(
    num: &N,
    start: State,
    program: Seq<Stmt>,
    end: State,
    e: EvalError,
)
    requires
        single_valued(num),
        runs(num, start, program, end),
    ensures
        !run_outcome(num, start, program, Err(e)),
{
    if run_outcome(num, start, program, Err(e)) {
        let (k, mid) = choose|k: int, mid: State| breaks_at(num, start, program, k, mid, e);
        let at = lemma_runs_through(num, start, program, end, k);
        law_runs_once(num, start, program.take(k), mid, at.0);
        law_steps_once(num, mid, program[k], at.1, at.1, e);
    }
}

} // verus!
