//! Evaluating an expression in an environment.

use vstd::prelude::*;
use crate::arith::{serves, Arith};
use crate::builtins::applies;
use crate::defs::{
    exprs, flattened, lemma_call_model, lemma_collection_model, lookup, outcome, values, Context,
    Element, ElementType, EvalError, Expr, Expression, FunctionCall, FunctionType, Object, Value,
};

verus! {

/// The builtin that a name stands for in `env`.
pub open spec fn callee(env: Map<Seq<char>, Value>, name: Seq<char>) -> Result<
    FunctionType,
    EvalError,
> {
    match lookup(env, name) {
        Ok(Value::Element(Element::Function(f))) => Ok(f),
        Ok(_) => Err(EvalError::NotCallable),
        Err(e) => Err(e),
    }
}

/// `r` is a possible outcome of evaluating `expr` in `env`.
///
/// A number stands for itself and a name for what it is bound to. The items
/// of a collection literal are evaluated from left to right and flattened by
/// one level. A call finds its builtin first, then evaluates the arguments
/// from left to right, then applies the builtin. The first failure ends the
/// evaluation.
pub open spec fn evaluates<N: Fn(Arith) -> u32>(
    num: &N,
    env: Map<Seq<char>, Value>,
    expr: Expr,
    r: Result<Value, EvalError>,
) -> bool
    decreases expr, 0nat,
{
    match expr {
        Expr::Number(n) => r == Ok::<Value, EvalError>(Value::Element(Element::Number(n))),
        Expr::Ident(name) => r == lookup(env, name),
        Expr::Collection(items) => match r {
            Ok(v) => exists|vals: Seq<Value>|
                all_evaluate(num, env, items, vals) && v == Value::Collection(
                    #[trigger] flattened(vals),
                ),
            Err(e) => one_fails(num, env, items, e),
        },
        Expr::FunctionCall { fun, args } => match callee(env, fun) {
            Err(e) => r == Err::<Value, EvalError>(e),
            Ok(f) => {
                ||| exists|vals: Seq<Value>|
                    all_evaluate(num, env, args, vals) && #[trigger] applies(num, f, vals, r)
                ||| r matches Err(e) && one_fails(num, env, args, e)
            },
        },
    }
}

/// Each of `vals` is a possible value of the expression at its place in
/// `items`.
pub open spec fn all_evaluate<N: Fn(Arith) -> u32>(
    num: &N,
    env: Map<Seq<char>, Value>,
    items: Seq<Expr>,
    vals: Seq<Value>,
) -> bool
    decreases items, 0nat,
{
    &&& vals.len() == items.len()
    &&& forall|i: int|
        0 <= i < items.len() ==> evaluates(num, env, items[i], Ok(#[trigger] vals[i]))
}

/// `vals` has a place for each of the first `k` of `items`, and `items` has
/// one more.
pub open spec fn cut(items: Seq<Expr>, k: int, vals: Seq<Value>) -> bool {
    0 <= k < items.len() && vals.len() == k
}

/// The first `k` of `items` may evaluate to `vals`, and the next may then
/// fail with `e`.
pub open spec fn stops_at<N: Fn(Arith) -> u32>(
    num: &N,
    env: Map<Seq<char>, Value>,
    items: Seq<Expr>,
    k: int,
    vals: Seq<Value>,
    e: EvalError,
) -> bool
    decreases items, 0nat,
{
    &&& cut(items, k, vals)
    &&& forall|i: int| 0 <= i < k ==> evaluates(num, env, items[i], Ok(#[trigger] vals[i]))
    &&& evaluates(num, env, items[k], Err(e))
}

/// One of `items` may fail with `e` after all before it evaluated.
pub open spec fn one_fails<N: Fn(Arith) -> u32>(
    num: &N,
    env: Map<Seq<char>, Value>,
    items: Seq<Expr>,
    e: EvalError,
) -> bool
    decreases items, 1nat,
{
    exists|k: int, vals: Seq<Value>| #[trigger]
        cut(items, k, vals) && stops_at(num, env, items, k, vals, e)
}

/// `r` is a possible outcome of evaluating `items` from left to right: all
/// their values, or the first failure.
pub open spec fn evaluate_in_turn<N: Fn(Arith) -> u32>(
    num: &N,
    env: Map<Seq<char>, Value>,
    items: Seq<Expr>,
    r: Result<Seq<Value>, EvalError>,
) -> bool {
    match r {
        Ok(vals) => all_evaluate(num, env, items, vals),
        Err(e) => one_fails(num, env, items, e),
    }
}

/// The model of the outcome of evaluating a run of expressions.
pub open spec fn outcomes(r: Result<Vec<Object>, EvalError>) -> Result<Seq<Value>, EvalError> {
    match r {
        Ok(objects) => Ok(values(objects@)),
        Err(e) => Err(e),
    }
}

impl Expression {
    /// Evaluates the expression in `context`, with `num` for arithmetic.
    pub fn eval<N: Fn(Arith) -> u32>(&self, num: &N, context: &Context) -> (r: Result<
        Object,
        EvalError,
    >)
        requires
            serves(num),
        ensures
            evaluates(num, context@, self@, outcome(r)),
        decreases self, 1nat,
    {
        match self {
            Expression::Number(n) => Ok(Self::eval_number(n)),
            Expression::FunctionCall(call) => {
                proof {
                    lemma_call_model(*call);
                }
                Self::eval_functioncall(call, num, context)
            },
            Expression::Ident(ident) => Self::eval_ident(ident, context),
            Expression::Collection(set) => {
                proof {
                    lemma_collection_model(*set);
                }
                Self::eval_set(set, num, context)
            },
        }
    }

    fn eval_number(n: &u32) -> (r: Object)
        ensures
            r@ == Value::Element(Element::Number(*n)),
    {
        Object::Element(ElementType::Number(*n))
    }

    /// Evaluates `items` from left to right, up to the first failure.
    pub fn eval_all<N: Fn(Arith) -> u32>(items: &Vec<Expression>, num: &N, context: &Context) -> (r:
        Result<Vec<Object>, EvalError>)
        requires
            serves(num),
        ensures
            evaluate_in_turn(num, context@, exprs(items@), outcomes(r)),
        decreases items, 0nat,
    {
        let mut objects: Vec<Object> = Vec::new();
        let mut i: usize = 0;
        while i < items.len()
            invariant
                serves(num),
                i <= items@.len(),
                objects@.len() == i,
                forall|j: int|
                    0 <= j < i ==> evaluates(
                        num,
                        context@,
                        exprs(items@)[j],
                        Ok(#[trigger] values(objects@)[j]),
                    ),
            decreases items@.len() - i,
        {
            match items[i].eval(num, context) {
                Ok(object) => {
                    let ghost before = values(objects@);
                    objects.push(object);
                    assert(values(objects@) =~= before.push(object@));
                },
                Err(e) => {
                    assert(stops_at(num, context@, exprs(items@), i as int, values(objects@), e));
                    return Err(e);
                },
            }
            i += 1;
        }
        Ok(objects)
    }

    fn eval_functioncall<N: Fn(Arith) -> u32>(
        call: &FunctionCall,
        num: &N,
        context: &Context,
    ) -> (r: Result<Object, EvalError>)
        requires
            serves(num),
        ensures
            evaluates(
                num,
                context@,
                Expr::FunctionCall { fun: call.fun@, args: exprs(call.args@) },
                outcome(r),
            ),
        decreases call, 1nat,
    {
        let opt_fun = context.objects.get(call.fun.as_str());
        match opt_fun {
            Some(fun) => match fun {
                Object::Element(ElementType::Function(f)) => {
                    match Self::eval_all(&call.args, num, context) {
                        Ok(args) => f.call(num, &args),
                        Err(e) => Err(e),
                    }
                },
                _ => Err(EvalError::NotCallable),
            },
            None => Err(EvalError::UnknownIdentifier),
        }
    }

    fn eval_ident(ident: &String, context: &Context) -> (r: Result<Object, EvalError>)
        ensures
            outcome(r) == lookup(context@, ident@),
    {
        context.lookup(ident.as_str())
    }

    fn eval_set<N: Fn(Arith) -> u32>(set: &Vec<Expression>, num: &N, context: &Context) -> (r:
        Result<Object, EvalError>)
        requires
            serves(num),
        ensures
            evaluates(num, context@, Expr::Collection(exprs(set@)), outcome(r)),
        decreases set, 1nat,
    {
        match Self::eval_all(set, num, context) {
            Ok(objects) => Ok(Object::collection(&objects)),
            Err(e) => Err(e),
        }
    }
}

} // verus!
