use geodsl::arith::{zero, Arith};
use geodsl::builtins::{
    add_elem, div_elem, mul_elem, point_elem, rotate_elem, sub_elem, translate_elem, vector_elem,
};
use geodsl::defs::{ElementType, EvalError, FunctionType};

fn ieee(op: Arith) -> u32 {
    match op {
        Arith::Add(a, b) => (f32::from_bits(a) + f32::from_bits(b)).to_bits(),
        Arith::Sub(a, b) => (f32::from_bits(a) - f32::from_bits(b)).to_bits(),
        Arith::Mul(a, b) => (f32::from_bits(a) * f32::from_bits(b)).to_bits(),
        Arith::Div(a, b) => (f32::from_bits(a) / f32::from_bits(b)).to_bits(),
        Arith::Cos(a) => f32::from_bits(a).cos().to_bits(),
        Arith::Sin(a) => f32::from_bits(a).sin().to_bits(),
    }
}

fn number(x: f32) -> ElementType {
    ElementType::Number(x.to_bits())
}

fn vector(x: f32, y: f32) -> ElementType {
    ElementType::Vector(x.to_bits(), y.to_bits())
}

fn point(x: f32, y: f32) -> ElementType {
    ElementType::Point(x.to_bits(), y.to_bits())
}

fn polygon(vertices: &[(f32, f32)]) -> ElementType {
    ElementType::Polygon(vertices.iter().map(|(x, y)| (x.to_bits(), y.to_bits())).collect())
}

fn close(a: u32, b: f32) -> bool {
    (f32::from_bits(a) - b).abs() < 1e-4
}

#[test]
fn zero_knows_both_zeros() {
    assert!(zero(0.0f32.to_bits()));
    assert!(zero((-0.0f32).to_bits()));
    assert!(!zero(1.0f32.to_bits()));
    assert!(!zero(f32::MIN_POSITIVE.to_bits()));
}

#[test]
fn vector_elem_takes_two_numbers() {
    assert_eq!(vector_elem(&number(1.0), &number(2.0)), Ok(vector(1.0, 2.0)));
    assert_eq!(vector_elem(&number(1.0), &point(2.0, 3.0)), Err(EvalError::TypeMismatch));
    assert_eq!(vector_elem(&vector(1.0, 1.0), &number(2.0)), Err(EvalError::TypeMismatch));
}

#[test]
fn point_elem_takes_two_numbers() {
    assert_eq!(point_elem(&number(-1.0), &number(0.5)), Ok(point(-1.0, 0.5)));
    assert_eq!(
        point_elem(&number(1.0), &ElementType::Function(FunctionType::Add)),
        Err(EvalError::TypeMismatch)
    );
}

#[test]
fn add_elem_sums_numbers() {
    assert_eq!(add_elem(&ieee, &number(1.5), &number(2.25)), Ok(number(3.75)));
}

#[test]
fn add_elem_sums_vectors_by_component() {
    assert_eq!(add_elem(&ieee, &vector(1.0, 2.0), &vector(10.0, 20.0)), Ok(vector(11.0, 22.0)));
}

#[test]
fn add_elem_commutes_on_numbers_and_vectors() {
    assert_eq!(
        add_elem(&ieee, &number(0.1), &number(0.7)),
        add_elem(&ieee, &number(0.7), &number(0.1))
    );
    assert_eq!(
        add_elem(&ieee, &vector(0.1, -3.0), &vector(0.7, 9.5)),
        add_elem(&ieee, &vector(0.7, 9.5), &vector(0.1, -3.0))
    );
}

#[test]
fn add_elem_refuses_mixed_kinds() {
    assert_eq!(add_elem(&ieee, &number(1.0), &vector(1.0, 1.0)), Err(EvalError::TypeMismatch));
    assert_eq!(add_elem(&ieee, &vector(1.0, 1.0), &number(1.0)), Err(EvalError::TypeMismatch));
    assert_eq!(add_elem(&ieee, &point(0.0, 0.0), &vector(1.0, 1.0)), Err(EvalError::TypeMismatch));
    assert_eq!(add_elem(&ieee, &point(0.0, 0.0), &point(1.0, 1.0)), Err(EvalError::TypeMismatch));
}

#[test]
fn sub_elem_subtracts_numbers_and_vectors() {
    assert_eq!(sub_elem(&ieee, &number(5.0), &number(7.5)), Ok(number(-2.5)));
    assert_eq!(sub_elem(&ieee, &vector(5.0, 1.0), &vector(2.0, 4.0)), Ok(vector(3.0, -3.0)));
    assert_eq!(sub_elem(&ieee, &number(5.0), &vector(2.0, 4.0)), Err(EvalError::TypeMismatch));
}

#[test]
fn sub_elem_undoes_add_elem() {
    let sum = add_elem(&ieee, &number(8.0), &number(0.5)).unwrap();
    assert_eq!(sub_elem(&ieee, &sum, &number(0.5)), Ok(number(8.0)));
    let sum = add_elem(&ieee, &number(0.1), &number(0.2)).unwrap();
    match sub_elem(&ieee, &sum, &number(0.2)) {
        Ok(ElementType::Number(x)) => assert!(close(x, 0.1)),
        other => panic!("{:?}", other),
    }
}

#[test]
fn mul_elem_multiplies_numbers() {
    assert_eq!(mul_elem(&ieee, &number(3.0), &number(-0.5)), Ok(number(-1.5)));
}

#[test]
fn mul_elem_scales_a_vector() {
    assert_eq!(mul_elem(&ieee, &number(3.0), &vector(1.0, -2.0)), Ok(vector(3.0, -6.0)));
    assert_eq!(mul_elem(&ieee, &vector(1.0, -2.0), &number(3.0)), Err(EvalError::TypeMismatch));
    assert_eq!(mul_elem(&ieee, &vector(1.0, -2.0), &vector(1.0, 2.0)), Err(EvalError::TypeMismatch));
}

#[test]
fn div_elem_divides_numbers() {
    assert_eq!(div_elem(&ieee, &number(6.0), &number(4.0)), Ok(number(1.5)));
    assert_eq!(div_elem(&ieee, &number(0.0), &number(4.0)), Ok(number(0.0)));
    assert_eq!(div_elem(&ieee, &vector(6.0, 2.0), &number(2.0)), Err(EvalError::TypeMismatch));
}

#[test]
fn div_elem_refuses_both_zeros() {
    for a in [0.0f32, 1.0, -7.5, f32::MAX, f32::INFINITY] {
        assert_eq!(div_elem(&ieee, &number(a), &number(0.0)), Err(EvalError::DivisionByZero));
        assert_eq!(div_elem(&ieee, &number(a), &number(-0.0)), Err(EvalError::DivisionByZero));
    }
}

#[test]
fn div_elem_looks_at_kinds_before_the_divisor() {
    assert_eq!(div_elem(&ieee, &point(1.0, 1.0), &number(0.0)), Err(EvalError::TypeMismatch));
}

#[test]
fn translate_elem_shifts_a_point() {
    assert_eq!(
        translate_elem(&ieee, &point(1.0, 2.0), &vector(10.0, -20.0)),
        Ok(point(11.0, -18.0))
    );
}

#[test]
fn translate_elem_shifts_every_vertex_in_order() {
    let square = polygon(&[(0.0, 0.0), (50.0, 0.0), (50.0, 50.0), (0.0, 50.0)]);
    assert_eq!(
        translate_elem(&ieee, &square, &vector(550.0, 5.0)),
        Ok(polygon(&[(550.0, 5.0), (600.0, 5.0), (600.0, 55.0), (550.0, 55.0)]))
    );
}

#[test]
fn translate_elem_refuses_other_kinds() {
    assert_eq!(translate_elem(&ieee, &point(1.0, 2.0), &point(1.0, 2.0)), Err(EvalError::TypeMismatch));
    assert_eq!(translate_elem(&ieee, &vector(1.0, 2.0), &vector(1.0, 2.0)), Err(EvalError::TypeMismatch));
    assert_eq!(translate_elem(&ieee, &number(1.0), &vector(1.0, 2.0)), Err(EvalError::TypeMismatch));
}

#[test]
fn rotate_elem_turns_an_offset_point_by_a_quarter() {
    let (x0, y0, d) = (500.0f32, 300.0f32, 40.0f32);
    let turned = rotate_elem(
        &ieee,
        &point(x0 + d, y0),
        &number(std::f32::consts::FRAC_PI_2),
        &point(x0, y0),
    );
    match turned {
        Ok(ElementType::Point(x, y)) => {
            assert!(close(x, x0));
            assert!(close(y, y0 + d));
        },
        other => panic!("{:?}", other),
    }
}

#[test]
fn rotate_elem_by_nothing_keeps_the_polygon() {
    let triangle = polygon(&[(1.0, 1.0), (4.0, 1.0), (1.0, 5.0)]);
    assert_eq!(rotate_elem(&ieee, &triangle, &number(0.0), &point(1.0, 1.0)), Ok(triangle));
}

#[test]
fn rotate_elem_turns_every_vertex_in_order() {
    let shape = polygon(&[(1.0, 0.0), (2.0, 0.0), (0.0, 3.0)]);
    match rotate_elem(&ieee, &shape, &number(std::f32::consts::PI), &point(0.0, 0.0)) {
        Ok(ElementType::Polygon(vertices)) => {
            let expected = [(-1.0, 0.0), (-2.0, 0.0), (0.0, -3.0)];
            assert_eq!(vertices.len(), expected.len());
            for ((x, y), (ex, ey)) in vertices.iter().zip(expected.iter()) {
                assert!(close(*x, *ex));
                assert!(close(*y, *ey));
            }
        },
        other => panic!("{:?}", other),
    }
}

#[test]
fn rotate_elem_wants_a_point_for_a_pivot() {
    let shape = polygon(&[(1.0, 0.0)]);
    assert_eq!(
        rotate_elem(&ieee, &shape, &number(1.0), &vector(0.0, 0.0)),
        Err(EvalError::TypeMismatch)
    );
    assert_eq!(
        rotate_elem(&ieee, &shape, &number(1.0), &number(0.0)),
        Err(EvalError::TypeMismatch)
    );
}

#[test]
fn rotate_elem_wants_a_shape_and_an_angle() {
    let pivot = point(0.0, 0.0);
    assert_eq!(
        rotate_elem(&ieee, &point(1.0, 0.0), &vector(1.0, 1.0), &pivot),
        Err(EvalError::TypeMismatch)
    );
    assert_eq!(
        rotate_elem(&ieee, &vector(1.0, 0.0), &number(1.0), &pivot),
        Err(EvalError::TypeMismatch)
    );
    assert_eq!(
        rotate_elem(&ieee, &number(1.0), &polygon(&[(1.0, 0.0)]), &pivot),
        Err(EvalError::TypeMismatch)
    );
}

#[test]
fn rotate_elem_asks_for_cosine_and_sine_once() {
    let asked = std::cell::Cell::new((0u32, 0u32));
    let counting = |op: Arith| {
        let (c, s) = asked.get();
        match op {
            Arith::Cos(_) => asked.set((c + 1, s)),
            Arith::Sin(_) => asked.set((c, s + 1)),
            _ => {},
        }
        ieee(op)
    };
    let shape = polygon(&[(1.0, 0.0), (2.0, 0.0), (0.0, 3.0)]);
    rotate_elem(&counting, &shape, &number(0.3), &point(0.0, 0.0)).unwrap();
    assert_eq!(asked.get(), (1, 1));
}

/// Whole numbers in place of bit patterns, with 4 for every cosine and 1 for every sine.
fn whole(op: Arith) -> u32 {
    match op {
        Arith::Add(a, b) => a + b,
        Arith::Sub(a, b) => a - b,
        Arith::Mul(a, b) => a * b,
        Arith::Div(a, b) => a / b,
        Arith::Cos(_) => 4,
        Arith::Sin(_) => 1,
    }
}

#[test]
fn rotate_elem_follows_the_formula_of_a_turn() {
    // The offset (3, 7) from the pivot (10, 20) becomes (3 * 4 - 7 * 1, 3 * 1 + 7 * 4).
    let turned = rotate_elem(
        &whole,
        &ElementType::Point(13, 27),
        &ElementType::Number(0),
        &ElementType::Point(10, 20),
    );
    assert_eq!(turned, Ok(ElementType::Point(10 + 5, 20 + 31)));
    let turned = rotate_elem(
        &whole,
        &ElementType::Polygon(vec![(13, 27), (10, 20), (12, 21)]),
        &ElementType::Number(0),
        &ElementType::Point(10, 20),
    );
    assert_eq!(turned, Ok(ElementType::Polygon(vec![(15, 51), (10, 20), (17, 26)])));
}

#[test]
fn the_arithmetic_is_the_callers() {
    assert_eq!(
        add_elem(&whole, &ElementType::Number(2), &ElementType::Number(3)),
        Ok(ElementType::Number(5))
    );
    assert_eq!(
        mul_elem(&whole, &ElementType::Number(2), &ElementType::Vector(3, 4)),
        Ok(ElementType::Vector(6, 8))
    );
    assert_eq!(
        translate_elem(&whole, &ElementType::Point(1, 2), &ElementType::Vector(3, 4)),
        Ok(ElementType::Point(4, 6))
    );
    assert_eq!(
        div_elem(&whole, &ElementType::Number(7), &ElementType::Number(2)),
        Ok(ElementType::Number(3))
    );
    assert_eq!(
        sub_elem(&whole, &ElementType::Vector(7, 9), &ElementType::Vector(2, 3)),
        Ok(ElementType::Vector(5, 6))
    );
}
