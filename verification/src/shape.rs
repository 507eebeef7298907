//! A polygon has at least one vertex: what the builtins make of values that
//! keep to this keeps to it.

use vstd::prelude::*;
use crate::arith::Arith;
use crate::broadcast::{lemma_cell_of, lifted, Relation};
use crate::builtins::{
    adding, applies, dividing, making_point, making_vector, multiplying, rotating, subtracting,
    translating,
};
use crate::defs::{flattened, Element, Expr, FunctionType, Stmt, Value};
use crate::exec::{defaults, drawn, runs, start, steps, Picture, State};
use crate::expr::{all_evaluate, callee, evaluates};

verus! {

impl Element {
    /// A polygon has at least one vertex.
    pub open spec fn well_formed(self) -> bool {
        self matches Element::Polygon(vertices) ==> vertices.len() >= 1
    }
}

/// Every element is well formed.
pub open spec fn all_well_formed(items: Seq<Element>) -> bool {
    forall|i: int| 0 <= i < items.len() ==> (#[trigger] items[i]).well_formed()
}

impl Value {
    /// Every polygon that the value holds has at least one vertex.
    pub open spec fn well_formed(self) -> bool {
        all_well_formed(self.items())
    }
}

/// Every value is well formed.
pub open spec fn values_well_formed(vals: Seq<Value>) -> bool {
    forall|i: int| 0 <= i < vals.len() ==> (#[trigger] vals[i]).well_formed()
}

/// Every bound value is well formed.
pub open spec fn env_well_formed(env: Map<Seq<char>, Value>) -> bool {
    forall|name: Seq<char>| env.contains_key(name) ==> (#[trigger] env[name]).well_formed()
}

/// Every polygon of every picture has at least one vertex.
pub open spec fn pictures_well_formed(shown: Seq<Picture>) -> bool {
    forall|i: int, j: int|
        0 <= i < shown.len() && 0 <= j < shown[i].polygons.len() ==> (
        #[trigger] shown[i].polygons[j]).len() >= 1
}

/// What the operation makes of well-formed elements is well formed.
pub open spec fn keeps_well_formed(rel: Relation) -> bool {
    forall|x: Element, y: Element, z: Element|
        x.well_formed() && y.well_formed() && #[trigger] rel(x, y, Ok(z)) ==> z.well_formed()
}

/// Lifting keeps well-formedness.
pub proof fn law_lifted_well_formed(rel: Relation, a: Value, b: Value, v: Value)
    requires
        keeps_well_formed(rel),
        a.well_formed(),
        b.well_formed(),
        lifted(rel, a, b, Ok(v)),
    ensures
        v.well_formed(),
{
    let xs = a.items();
    let ys = b.items();
    assert forall|k: int| 0 <= k < v.items().len() implies (
    #[trigger] v.items()[k]).well_formed() by {
        let (i, j) = lemma_cell_of(k, xs.len() as int, ys.len() as int);
    }
}

/// Every relation that the builtins lift keeps well-formedness: a transform
/// gives a polygon as many vertices as it was given.
pub proof fn lemma_relations_keep_well_formed<N: Fn(Arith) -> u32>(num: &N, pivot: Element)
    ensures
        keeps_well_formed(making_vector()),
        keeps_well_formed(making_point()),
        keeps_well_formed(adding(num)),
        keeps_well_formed(subtracting(num)),
        keeps_well_formed(multiplying(num)),
        keeps_well_formed(dividing(num)),
        keeps_well_formed(translating(num)),
        keeps_well_formed(rotating(num, pivot)),
{
}

/// What a builtin makes of well-formed arguments is well formed.
pub proof fn law_applies_well_formed<N: Fn(Arith) -> u32>(
    num: &N,
    f: FunctionType,
    args: Seq<Value>,
    v: Value,
)
    requires
        values_well_formed(args),
        applies(num, f, args, Ok(v)),
    ensures
        v.well_formed(),
{
    let pivot = if f == FunctionType::Rotate {
        args[2].items()[0]
    } else {
        Element::Number(0)
    };
    lemma_relations_keep_well_formed(num, pivot);
    match f {
        FunctionType::Vector => law_lifted_well_formed(making_vector(), args[0], args[1], v),
        FunctionType::Point => law_lifted_well_formed(making_point(), args[0], args[1], v),
        FunctionType::Polygon => {},
        FunctionType::Add => law_lifted_well_formed(adding(num), args[0], args[1], v),
        FunctionType::Sub => law_lifted_well_formed(subtracting(num), args[0], args[1], v),
        FunctionType::Mul => law_lifted_well_formed(multiplying(num), args[0], args[1], v),
        FunctionType::Div => law_lifted_well_formed(dividing(num), args[0], args[1], v),
        FunctionType::Translate => law_lifted_well_formed(translating(num), args[0], args[1], v),
        FunctionType::Rotate => {
            match args[2] {
                Value::Element(Element::Point(x0, y0)) => {
                    law_lifted_well_formed(rotating(num, pivot), args[0], args[1], v);
                },
                _ => {},
            }
        },
    }
}

/// Flattening well-formed values gives well-formed elements.
pub proof fn lemma_flattened_well_formed(vals: Seq<Value>)
    requires
        values_well_formed(vals),
    ensures
        all_well_formed(flattened(vals)),
    decreases vals.len(),
{
    if vals.len() > 0 {
        lemma_flattened_well_formed(vals.drop_last());
        let front = flattened(vals.drop_last());
        let back = vals.last().items();
        assert forall|i: int| 0 <= i < (front + back).len() implies (#[trigger] (front
            + back)[i]).well_formed() by {}
    }
}

/// In an environment of well-formed values, every value of an expression is
/// well formed.
pub proof fn law_evaluates_well_formed<N: Fn(Arith) -> u32>(
    num: &N,
    env: Map<Seq<char>, Value>,
    expr: Expr,
    v: Value,
)
    requires
        env_well_formed(env),
        evaluates(num, env, expr, Ok(v)),
    ensures
        v.well_formed(),
    decreases expr, 1nat,
{
    match expr {
        Expr::Number(_) => {},
        Expr::Ident(name) => {},
        Expr::Collection(items) => {
            let vals = choose|vals: Seq<Value>|
                all_evaluate(num, env, items, vals) && v == Value::Collection(
                    #[trigger] flattened(vals),
                );
            lemma_all_well_formed(num, env, items, vals);
            lemma_flattened_well_formed(vals);
        },
        Expr::FunctionCall { fun, args } => {
            let f = callee(env, fun)->Ok_0;
            let vals = choose|vals: Seq<Value>|
                all_evaluate(num, env, args, vals) && #[trigger] applies(num, f, vals, Ok(v));
            lemma_all_well_formed(num, env, args, vals);
            law_applies_well_formed(num, f, vals, v);
        },
    }
}

/// In an environment of well-formed values, all the values of a run of
/// expressions are well formed.
pub proof fn lemma_all_well_formed<N: Fn(Arith) -> u32>(
    num: &N,
    env: Map<Seq<char>, Value>,
    items: Seq<Expr>,
    vals: Seq<Value>,
)
    requires
        env_well_formed(env),
        all_evaluate(num, env, items, vals),
    ensures
        values_well_formed(vals),
    decreases items, 0nat,
{
    assert forall|i: int| 0 <= i < vals.len() implies (#[trigger] vals[i]).well_formed() by {
        law_evaluates_well_formed(num, env, items[i], vals[i]);
    }
}

/// The builtins are well formed.
pub proof fn lemma_defaults_well_formed()
    ensures
        env_well_formed(defaults()),
{
    assert forall|name: Seq<char>| defaults().contains_key(name) implies (
    #[trigger] defaults()[name]).well_formed() by {}
}

/// A statement keeps the bindings and the pictures well formed.
pub proof fn law_steps_well_formed<N: Fn(Arith) -> u32>(
    num: &N,
    before: State,
    stmt: Stmt,
    after: State,
)
    requires
        env_well_formed(before.env),
        pictures_well_formed(before.shown),
        steps(num, before, stmt, after),
    ensures
        env_well_formed(after.env),
        pictures_well_formed(after.shown),
{
    match stmt {
        Stmt::Assignment { ident, expr } => {
            let v = choose|v: Value|
                evaluates(num, before.env, expr, Ok(v)) && after.env
                    == #[trigger] before.env.insert(ident, v);
            law_evaluates_well_formed(num, before.env, expr, v);
        },
        Stmt::Output { filename, expr } => {
            let v = choose|v: Value|
                evaluates(num, before.env, expr, Ok(v)) && (#[trigger] drawn(v) matches Ok(polygons)
                    && after.shown == before.shown.push(Picture { filename, polygons }));
            law_evaluates_well_formed(num, before.env, expr, v);
            let polygons = drawn(v)->Ok_0;
            assert forall|i: int, j: int|
                0 <= i < after.shown.len() && 0 <= j < after.shown[i].polygons.len() implies (
            #[trigger] after.shown[i].polygons[j]).len() >= 1 by {
            }
        },
    }
}

/// A run from a well-formed state ends in a well-formed state.
pub proof fn law_runs_well_formed<N: Fn(Arith) -> u32>(
    num: &N,
    start: State,
    program: Seq<Stmt>,
    end: State,
)
    requires
        env_well_formed(start.env),
        pictures_well_formed(start.shown),
        runs(num, start, program, end),
    ensures
        env_well_formed(end.env),
        pictures_well_formed(end.shown),
    decreases program.len(),
{
    if program.len() > 0 {
        let mid = choose|mid: State|
            runs(num, start, program.drop_last(), mid) && #[trigger] steps(
                num,
                mid,
                program.last(),
                end,
            );
        law_runs_well_formed(num, start, program.drop_last(), mid);
        law_steps_well_formed(num, mid, program.last(), end);
    }
}

/// Every polygon that a program asks to draw has at least one vertex, and
/// so has every polygon that it binds.
pub proof fn law_program_well_formed<N: Fn(Arith) -> u32>(num: &N, program: Seq<Stmt>, end: State)
    requires
        runs(num, start(), program, end),
    ensures
        env_well_formed(end.env),
        pictures_well_formed(end.shown),
{
    lemma_defaults_well_formed();
    law_runs_well_formed(num, start(), program, end);
}

} // verus!
