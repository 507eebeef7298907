use geodsl::arith::Arith;
use geodsl::defs::{
    Context, ElementType, EvalError, Expression, FunctionCall, FunctionType, Object,
};

fn ieee(op: Arith) -> u32 {
    match op {
        Arith::Add(a, b) => (f32::from_bits(a) + f32::from_bits(b)).to_bits(),
        Arith::Sub(a, b) => (f32::from_bits(a) - f32::from_bits(b)).to_bits(),
        Arith::Mul(a, b) => (f32::from_bits(a) * f32::from_bits(b)).to_bits(),
        Arith::Div(a, b) => (f32::from_bits(a) / f32::from_bits(b)).to_bits(),
        Arith::Cos(a) => f32::from_bits(a).cos().to_bits(),
        Arith::Sin(a) => f32::from_bits(a).sin().to_bits(),
    }
}

fn n(x: f32) -> ElementType {
    ElementType::Number(x.to_bits())
}

fn v(x: f32, y: f32) -> ElementType {
    ElementType::Vector(x.to_bits(), y.to_bits())
}

fn p(x: f32, y: f32) -> ElementType {
    ElementType::Point(x.to_bits(), y.to_bits())
}

fn lit(x: f32) -> Expression {
    Expression::Number(x.to_bits())
}

fn name(s: &str) -> Expression {
    Expression::Ident(String::from(s))
}

fn set(items: Vec<Expression>) -> Expression {
    Expression::Collection(items)
}

fn call(fun: &str, args: Vec<Expression>) -> Expression {
    Expression::FunctionCall(FunctionCall { fun: String::from(fun), args })
}

#[test]
fn a_number_stands_for_itself() {
    let context = Context::default();
    assert_eq!(lit(6.28).eval(&ieee, &context), Ok(Object::Element(n(6.28))));
}

#[test]
fn a_name_stands_for_what_it_is_bound_to() {
    let mut context = Context::default();
    context.bind(String::from("k"), Object::Collection(vec![n(1.0), n(2.0)]));
    assert_eq!(name("k").eval(&ieee, &context), Ok(Object::Collection(vec![n(1.0), n(2.0)])));
    assert_eq!(
        name("add").eval(&ieee, &context),
        Ok(Object::Element(ElementType::Function(FunctionType::Add)))
    );
}

#[test]
fn an_unbound_name_is_unknown() {
    let context = Context::default();
    assert_eq!(name("k").eval(&ieee, &context), Err(EvalError::UnknownIdentifier));
    assert_eq!(context.lookup("k"), Err(EvalError::UnknownIdentifier));
}

#[test]
fn a_later_binding_wins() {
    let mut context = Context::default();
    context.bind(String::from("a"), Object::Element(n(1.0)));
    context.bind(String::from("a"), Object::Element(n(2.0)));
    assert_eq!(context.lookup("a"), Ok(Object::Element(n(2.0))));
}

#[test]
fn a_builtin_can_be_shadowed() {
    let mut context = Context::default();
    context.bind(String::from("add"), Object::Element(n(1.0)));
    assert_eq!(context.lookup("add"), Ok(Object::Element(n(1.0))));
    assert_eq!(
        call("add", vec![lit(1.0), lit(2.0)]).eval(&ieee, &context),
        Err(EvalError::NotCallable)
    );
    assert_eq!(
        call("sub", vec![lit(1.0), lit(2.0)]).eval(&ieee, &context),
        Ok(Object::Element(n(-1.0)))
    );
}

#[test]
fn a_collection_literal_holds_its_items_in_order() {
    let context = Context::default();
    assert_eq!(
        set(vec![lit(0.0), lit(1.0), lit(2.0)]).eval(&ieee, &context),
        Ok(Object::Collection(vec![n(0.0), n(1.0), n(2.0)]))
    );
    assert_eq!(set(vec![]).eval(&ieee, &context), Ok(Object::Collection(vec![])));
}

#[test]
fn a_collection_literal_is_flattened_by_one_level() {
    let mut context = Context::default();
    context.bind(String::from("k"), Object::Collection(vec![n(1.0), n(2.0)]));
    let nested = set(vec![lit(0.0), name("k"), set(vec![lit(3.0), set(vec![lit(4.0)])]), set(vec![])]);
    assert_eq!(
        nested.eval(&ieee, &context),
        Ok(Object::Collection(vec![n(0.0), n(1.0), n(2.0), n(3.0), n(4.0)]))
    );
}

#[test]
fn collection_makes_no_nested_collection() {
    let flat = Object::collection(&vec![
        Object::Element(n(0.0)),
        Object::Collection(vec![n(1.0), v(2.0, 2.0)]),
        Object::Collection(vec![]),
        Object::Element(p(3.0, 3.0)),
    ]);
    assert_eq!(flat, Object::Collection(vec![n(0.0), n(1.0), v(2.0, 2.0), p(3.0, 3.0)]));
    assert_eq!(flat.count(), 4);
    assert_eq!(flat.item(2), &v(2.0, 2.0));
    assert_eq!(Object::collection(&vec![]), Object::Collection(vec![]));
}

#[test]
fn a_call_applies_the_builtin_to_the_values() {
    let context = Context::default();
    let e = call("add", vec![call("mul", vec![lit(2.0), lit(3.0)]), lit(1.0)]);
    assert_eq!(e.eval(&ieee, &context), Ok(Object::Element(n(7.0))));
}

#[test]
fn a_call_of_an_unbound_name_is_unknown() {
    let context = Context::default();
    assert_eq!(
        call("scale", vec![lit(1.0)]).eval(&ieee, &context),
        Err(EvalError::UnknownIdentifier)
    );
}

#[test]
fn a_call_of_a_value_is_not_callable() {
    let mut context = Context::default();
    context.bind(String::from("k"), Object::Collection(vec![]));
    context.bind(String::from("x"), Object::Element(n(1.0)));
    assert_eq!(call("k", vec![]).eval(&ieee, &context), Err(EvalError::NotCallable));
    assert_eq!(call("x", vec![lit(1.0)]).eval(&ieee, &context), Err(EvalError::NotCallable));
}

#[test]
fn a_call_finds_its_builtin_before_it_looks_at_the_arguments() {
    let context = Context::default();
    assert_eq!(
        call("scale", vec![name("nobody")]).eval(&ieee, &context),
        Err(EvalError::UnknownIdentifier)
    );
    let mut context = Context::default();
    context.bind(String::from("x"), Object::Element(n(1.0)));
    assert_eq!(
        call("x", vec![call("div", vec![lit(1.0), lit(0.0)])]).eval(&ieee, &context),
        Err(EvalError::NotCallable)
    );
}

#[test]
fn arguments_are_evaluated_from_left_to_right() {
    let context = Context::default();
    let zero_first = call(
        "add",
        vec![call("div", vec![lit(1.0), lit(0.0)]), name("nobody")],
    );
    assert_eq!(zero_first.eval(&ieee, &context), Err(EvalError::DivisionByZero));
    let name_first = call(
        "add",
        vec![name("nobody"), call("div", vec![lit(1.0), lit(0.0)])],
    );
    assert_eq!(name_first.eval(&ieee, &context), Err(EvalError::UnknownIdentifier));
}

#[test]
fn arguments_are_evaluated_before_the_arity_is_checked() {
    let context = Context::default();
    let e = call("add", vec![name("nobody")]);
    assert_eq!(e.eval(&ieee, &context), Err(EvalError::UnknownIdentifier));
    let e = call("add", vec![lit(1.0)]);
    assert_eq!(e.eval(&ieee, &context), Err(EvalError::ArityMismatch));
}

#[test]
fn eval_all_gives_every_value_or_the_first_failure() {
    let context = Context::default();
    let items = vec![lit(1.0), set(vec![lit(2.0)]), name("add")];
    assert_eq!(
        Expression::eval_all(&items, &ieee, &context),
        Ok(vec![
            Object::Element(n(1.0)),
            Object::Collection(vec![n(2.0)]),
            Object::Element(ElementType::Function(FunctionType::Add)),
        ])
    );
    let items = vec![lit(1.0), name("nobody"), call("div", vec![lit(1.0), lit(0.0)])];
    assert_eq!(Expression::eval_all(&items, &ieee, &context), Err(EvalError::UnknownIdentifier));
}

#[test]
fn scaled_vectors_move_a_point() {
    // k = {0, 1, 2}; v = mul(k, vector(1, 0));
    let mut context = Context::default();
    let k = set(vec![lit(0.0), lit(1.0), lit(2.0)]).eval(&ieee, &context).unwrap();
    context.bind(String::from("k"), k);
    let scaled = call("mul", vec![name("k"), call("vector", vec![lit(1.0), lit(0.0)])])
        .eval(&ieee, &context)
        .unwrap();
    assert_eq!(scaled, Object::Collection(vec![v(0.0, 0.0), v(1.0, 0.0), v(2.0, 0.0)]));
    context.bind(String::from("v"), scaled);
    // `add` takes two numbers or two vectors: a point and a vector is a job for `translate`.
    let origin = call("point", vec![lit(0.0), lit(0.0)]);
    assert_eq!(
        call("add", vec![call("point", vec![lit(0.0), lit(0.0)]), name("v")]).eval(&ieee, &context),
        Err(EvalError::TypeMismatch)
    );
    assert_eq!(
        call("translate", vec![origin, name("v")]).eval(&ieee, &context),
        Ok(Object::Collection(vec![p(0.0, 0.0), p(1.0, 0.0), p(2.0, 0.0)]))
    );
}
