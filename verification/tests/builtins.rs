use geodsl::arith::Arith;
use geodsl::builtins::{div, get_builtins, point, polygon, rotate, translate, vector};
use geodsl::defs::{ElementType, EvalError, FunctionType, Object};

fn ieee(op: Arith) -> u32 {
    match op {
        Arith::Add(a, b) => (f32::from_bits(a) + f32::from_bits(b)).to_bits(),
        Arith::Sub(a, b) => (f32::from_bits(a) - f32::from_bits(b)).to_bits(),
        Arith::Mul(a, b) => (f32::from_bits(a) * f32::from_bits(b)).to_bits(),
        Arith::Div(a, b) => (f32::from_bits(a) / f32::from_bits(b)).to_bits(),
        Arith::Cos(a) => f32::from_bits(a).cos().to_bits(),
        Arith::Sin(a) => f32::from_bits(a).sin().to_bits(),
    }
}

fn n(x: f32) -> ElementType {
    ElementType::Number(x.to_bits())
}

fn v(x: f32, y: f32) -> ElementType {
    ElementType::Vector(x.to_bits(), y.to_bits())
}

fn p(x: f32, y: f32) -> ElementType {
    ElementType::Point(x.to_bits(), y.to_bits())
}

fn shape(vertices: &[(f32, f32)]) -> ElementType {
    ElementType::Polygon(vertices.iter().map(|(x, y)| (x.to_bits(), y.to_bits())).collect())
}

fn one(e: ElementType) -> Object {
    Object::Element(e)
}

fn many(es: Vec<ElementType>) -> Object {
    Object::Collection(es)
}

const ALL: [FunctionType; 9] = [
    FunctionType::Vector,
    FunctionType::Point,
    FunctionType::Polygon,
    FunctionType::Add,
    FunctionType::Sub,
    FunctionType::Mul,
    FunctionType::Div,
    FunctionType::Translate,
    FunctionType::Rotate,
];

#[test]
fn get_builtins_holds_the_nine_by_name() {
    let builtins = get_builtins();
    assert_eq!(builtins.len(), 9);
    assert_eq!(builtins.get("vector"), Some(&FunctionType::Vector));
    assert_eq!(builtins.get("point"), Some(&FunctionType::Point));
    assert_eq!(builtins.get("polygon"), Some(&FunctionType::Polygon));
    assert_eq!(builtins.get("add"), Some(&FunctionType::Add));
    assert_eq!(builtins.get("sub"), Some(&FunctionType::Sub));
    assert_eq!(builtins.get("mul"), Some(&FunctionType::Mul));
    assert_eq!(builtins.get("div"), Some(&FunctionType::Div));
    assert_eq!(builtins.get("translate"), Some(&FunctionType::Translate));
    assert_eq!(builtins.get("rotate"), Some(&FunctionType::Rotate));
    assert_eq!(builtins.get("scale"), None);
    assert_eq!(builtins.get("Add"), None);
}

#[test]
fn every_builtin_checks_its_arity_first() {
    for f in ALL {
        let arity = match f {
            FunctionType::Polygon => 1,
            FunctionType::Rotate => 3,
            _ => 2,
        };
        for given in 0..5usize {
            if given == arity {
                continue;
            }
            // Arguments of a kind that no builtin takes: the count is what is refused.
            let args: Vec<Object> =
                (0..given).map(|_| one(ElementType::Function(FunctionType::Add))).collect();
            assert_eq!(f.call(&ieee, &args), Err(EvalError::ArityMismatch), "{:?} {}", f, given);
        }
    }
}

#[test]
fn vector_lifts_over_a_collection() {
    let args = vec![many(vec![n(0.0), n(1.0)]), one(n(5.0))];
    assert_eq!(vector(&args), Ok(many(vec![v(0.0, 5.0), v(1.0, 5.0)])));
    assert_eq!(vector(&vec![one(n(1.0)), one(n(0.0))]), Ok(one(v(1.0, 0.0))));
}

#[test]
fn point_refuses_what_is_not_a_number() {
    assert_eq!(point(&vec![one(n(1.0)), one(v(0.0, 0.0))]), Err(EvalError::TypeMismatch));
    assert_eq!(point(&vec![one(n(1.0)), one(n(2.0))]), Ok(one(p(1.0, 2.0))));
}

#[test]
fn polygon_takes_the_points_in_order() {
    let args = vec![many(vec![p(0.0, 0.0), p(50.0, 0.0), p(50.0, 50.0), p(0.0, 50.0)])];
    assert_eq!(
        polygon(&args),
        Ok(one(shape(&[(0.0, 0.0), (50.0, 0.0), (50.0, 50.0), (0.0, 50.0)])))
    );
}

#[test]
fn polygon_of_one_point_is_a_polygon() {
    assert_eq!(polygon(&vec![many(vec![p(3.0, 4.0)])]), Ok(one(shape(&[(3.0, 4.0)]))));
}

#[test]
fn polygon_refuses_an_empty_collection() {
    assert_eq!(polygon(&vec![many(vec![])]), Err(EvalError::TypeMismatch));
}

#[test]
fn polygon_refuses_what_is_not_a_point() {
    let args = vec![many(vec![p(0.0, 0.0), v(1.0, 1.0), p(2.0, 2.0)])];
    assert_eq!(polygon(&args), Err(EvalError::TypeMismatch));
    let args = vec![many(vec![p(0.0, 0.0), p(2.0, 2.0), n(1.0)])];
    assert_eq!(polygon(&args), Err(EvalError::TypeMismatch));
    let args = vec![many(vec![shape(&[(0.0, 0.0)])])];
    assert_eq!(polygon(&args), Err(EvalError::TypeMismatch));
}

#[test]
fn polygon_refuses_a_single_element() {
    assert_eq!(polygon(&vec![one(p(0.0, 0.0))]), Err(EvalError::TypeMismatch));
}

#[test]
fn add_sub_mul_lift_over_collections() {
    let k = many(vec![n(0.0), n(1.0), n(2.0)]);
    let r = geodsl::builtins::mul(&ieee, &vec![k, one(v(1.0, 0.0))]);
    assert_eq!(r, Ok(many(vec![v(0.0, 0.0), v(1.0, 0.0), v(2.0, 0.0)])));
    let r = geodsl::builtins::add(&ieee, &vec![many(vec![n(1.0), n(2.0)]), many(vec![n(10.0), n(20.0)])]);
    assert_eq!(r, Ok(many(vec![n(11.0), n(21.0), n(12.0), n(22.0)])));
    let r = geodsl::builtins::sub(&ieee, &vec![one(n(1.0)), many(vec![n(10.0), n(20.0)])]);
    assert_eq!(r, Ok(many(vec![n(-9.0), n(-19.0)])));
}

#[test]
fn div_of_any_number_by_zero_fails() {
    for a in [0.0f32, 1.0, -3.5, 1e30] {
        assert_eq!(div(&ieee, &vec![one(n(a)), one(n(0.0))]), Err(EvalError::DivisionByZero));
    }
    assert_eq!(
        div(&ieee, &vec![many(vec![n(1.0), n(2.0)]), many(vec![n(4.0), n(0.0)])]),
        Err(EvalError::DivisionByZero)
    );
    assert_eq!(div(&ieee, &vec![one(n(1.0)), one(n(4.0))]), Ok(one(n(0.25))));
}

#[test]
fn translate_of_a_polygon_of_points_shifts_each_point() {
    let points = vec![p(0.0, 0.0), p(50.0, 0.0), p(50.0, 50.0)];
    let made = polygon(&vec![many(points)]).unwrap();
    let moved = translate(&ieee, &vec![made, one(v(550.0, 450.0))]);
    assert_eq!(moved, Ok(one(shape(&[(550.0, 450.0), (600.0, 450.0), (600.0, 500.0)]))));
}

#[test]
fn translate_lifts_over_vectors() {
    let moved = translate(&ieee, &vec![one(p(1.0, 1.0)), many(vec![v(1.0, 0.0), v(0.0, 1.0)])]);
    assert_eq!(moved, Ok(many(vec![p(2.0, 1.0), p(1.0, 2.0)])));
}

#[test]
fn rotate_lifts_over_angles_about_one_pivot() {
    let square = one(shape(&[(1.0, 0.0), (2.0, 0.0)]));
    let angles = many(vec![n(0.0), n(0.0), n(0.0)]);
    let r = rotate(&ieee, &vec![square, angles, one(p(0.0, 0.0))]);
    let same = shape(&[(1.0, 0.0), (2.0, 0.0)]);
    assert_eq!(r, Ok(many(vec![same.clone(), same.clone(), same])));
}

#[test]
fn rotate_refuses_a_collection_for_a_pivot() {
    let args = vec![one(p(1.0, 0.0)), one(n(0.0)), many(vec![p(0.0, 0.0)])];
    assert_eq!(rotate(&ieee, &args), Err(EvalError::TypeMismatch));
}

#[test]
fn rotate_refuses_a_pivot_that_is_no_point() {
    let args = vec![one(p(1.0, 0.0)), one(n(0.0)), one(v(0.0, 0.0))];
    assert_eq!(rotate(&ieee, &args), Err(EvalError::TypeMismatch));
    // Also where there is nothing to turn.
    let args = vec![many(vec![]), one(n(0.0)), one(n(0.0))];
    assert_eq!(rotate(&ieee, &args), Err(EvalError::TypeMismatch));
}

#[test]
fn call_goes_to_the_builtin() {
    let args = vec![one(n(2.0)), one(n(3.0))];
    assert_eq!(FunctionType::Add.call(&ieee, &args), Ok(one(n(5.0))));
    assert_eq!(FunctionType::Sub.call(&ieee, &args), Ok(one(n(-1.0))));
    assert_eq!(FunctionType::Mul.call(&ieee, &args), Ok(one(n(6.0))));
    assert_eq!(FunctionType::Div.call(&ieee, &args), Ok(one(n(2.0 / 3.0))));
    assert_eq!(FunctionType::Vector.call(&ieee, &args), Ok(one(v(2.0, 3.0))));
    assert_eq!(FunctionType::Point.call(&ieee, &args), Ok(one(p(2.0, 3.0))));
    assert_eq!(FunctionType::Translate.call(&ieee, &args), Err(EvalError::TypeMismatch));
    assert_eq!(
        FunctionType::Polygon.call(&ieee, &vec![many(vec![p(2.0, 3.0)])]),
        Ok(one(shape(&[(2.0, 3.0)])))
    );
    assert_eq!(
        FunctionType::Rotate.call(&ieee, &vec![one(p(2.0, 3.0)), one(n(0.0)), one(p(2.0, 3.0))]),
        Ok(one(p(2.0, 3.0)))
    );
}
