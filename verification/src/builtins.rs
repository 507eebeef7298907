//! The catalog of builtins: what each does to two elements, and how it is
//! lifted over its arguments.

use vstd::prelude::*;
use vstd::hash_map::StringHashMap;
use vstd::string::StringExecFns;
use crate::arith::{is_zero, serves, yields, zero, Arith};
use crate::broadcast::{lemma_lifted_implies, lifted, map2, relation_of, Relation};
use crate::defs::{
    element_outcome, outcome, values, Element, ElementType, EvalError, FunctionType, Object, Value,
};

verus! {

impl FunctionType {
    /// The name under which the builtin is bound.
    pub open spec fn name(self) -> Seq<char> {
        match self {
            FunctionType::Vector => "vector"@,
            FunctionType::Point => "point"@,
            FunctionType::Polygon => "polygon"@,
            FunctionType::Add => "add"@,
            FunctionType::Sub => "sub"@,
            FunctionType::Mul => "mul"@,
            FunctionType::Div => "div"@,
            FunctionType::Translate => "translate"@,
            FunctionType::Rotate => "rotate"@,
        }
    }

    /// How many arguments the builtin takes.
    pub open spec fn arity(self) -> nat {
        match self {
            FunctionType::Polygon => 1,
            FunctionType::Rotate => 3,
            _ => 2,
        }
    }
}

/// The builtin that goes by `name`, if there is one.
pub open spec fn named(name: Seq<char>) -> Option<FunctionType> {
    if name == "vector"@ {
        Some(FunctionType::Vector)
    } else if name == "point"@ {
        Some(FunctionType::Point)
    } else if name == "polygon"@ {
        Some(FunctionType::Polygon)
    } else if name == "add"@ {
        Some(FunctionType::Add)
    } else if name == "sub"@ {
        Some(FunctionType::Sub)
    } else if name == "mul"@ {
        Some(FunctionType::Mul)
    } else if name == "div"@ {
        Some(FunctionType::Div)
    } else if name == "translate"@ {
        Some(FunctionType::Translate)
    } else if name == "rotate"@ {
        Some(FunctionType::Rotate)
    } else {
        None
    }
}

/// The catalog: every builtin under its name, and nothing else.
pub open spec fn catalog() -> Map<Seq<char>, FunctionType> {
    Map::new(|name: Seq<char>| named(name) is Some, |name: Seq<char>| named(name)->Some_0)
}

/// No two builtins share a name: each is the one that goes by its name.
pub proof fn lemma_names_differ(f: FunctionType)
    ensures
        named(f.name()) == Some(f),
{
    reveal_strlit("vector");
    reveal_strlit("point");
    reveal_strlit("polygon");
    reveal_strlit("add");
    reveal_strlit("sub");
    reveal_strlit("mul");
    reveal_strlit("div");
    reveal_strlit("translate");
    reveal_strlit("rotate");
    assert("point"@.len() == 5);
    assert("polygon"@.len() == 7);
    assert("add"@.len() == 3 && "add"@[0] == 'a');
    assert("sub"@.len() == 3 && "sub"@[0] == 's');
    assert("mul"@.len() == 3 && "mul"@[0] == 'm');
    assert("div"@.len() == 3 && "div"@[0] == 'd');
    assert("translate"@.len() == 9);
    assert("rotate"@.len() == 6 && "rotate"@[0] == 'r');
}

/// The catalog of builtins, each under its name.
pub fn get_builtins() -> (builtins: StringHashMap<FunctionType>)
    ensures
        builtins@ == catalog(),
{
    let mut builtins = StringHashMap::new();

    // Constructors
    builtins.insert(String::from_str("vector"), FunctionType::Vector);
    builtins.insert(String::from_str("point"), FunctionType::Point);
    builtins.insert(String::from_str("polygon"), FunctionType::Polygon);

    // Binary operators
    builtins.insert(String::from_str("add"), FunctionType::Add);
    builtins.insert(String::from_str("sub"), FunctionType::Sub);
    builtins.insert(String::from_str("mul"), FunctionType::Mul);
    builtins.insert(String::from_str("div"), FunctionType::Div);

    // Transformations
    builtins.insert(String::from_str("translate"), FunctionType::Translate);
    builtins.insert(String::from_str("rotate"), FunctionType::Rotate);

    proof {
        lemma_names_differ(FunctionType::Vector);
        lemma_names_differ(FunctionType::Point);
        lemma_names_differ(FunctionType::Polygon);
        lemma_names_differ(FunctionType::Add);
        lemma_names_differ(FunctionType::Sub);
        lemma_names_differ(FunctionType::Mul);
        lemma_names_differ(FunctionType::Div);
        lemma_names_differ(FunctionType::Translate);
        lemma_names_differ(FunctionType::Rotate);
    }
    builtins
}

/// `r` is a possible outcome of a builtin of two arguments that lifts `rel`:
/// with any other number of arguments it fails before it looks at them.
pub open spec fn binary(rel: Relation, args: Seq<Value>, r: Result<Value, EvalError>) -> bool {
    if args.len() != 2 {
        r == Err::<Value, EvalError>(EvalError::ArityMismatch)
    } else {
        lifted(rel, args[0], args[1], r)
    }
}

fn lift<F: Fn(&ElementType, &ElementType) -> Result<ElementType, EvalError>>(
    fun: &F,
    Ghost(rel): Ghost<Relation>,
    o1: &Object,
    o2: &Object,
) -> (r: Result<Object, EvalError>)
    requires
        forall|e1: &ElementType, e2: &ElementType| #[trigger] call_requires(*fun, (e1, e2)),
        forall|e1: ElementType, e2: ElementType, z: Result<ElementType, EvalError>| #[trigger]
            call_ensures(*fun, (&e1, &e2), z) ==> rel(e1@, e2@, element_outcome(z)),
    ensures
        lifted(rel, o1@, o2@, outcome(r)),
{
    let r = map2(fun, o1, o2);
    proof {
        lemma_lifted_implies(relation_of(fun), rel, o1@, o2@, outcome(r));
    }
    r
}

// Constructors

/// What `vector` makes of two elements.
pub open spec fn vector_of(e1: Element, e2: Element) -> Result<Element, EvalError> {
    match (e1, e2) {
        (Element::Number(x), Element::Number(y)) => Ok(Element::Vector(x, y)),
        _ => Err(EvalError::TypeMismatch),
    }
}

/// Makes a vector of two numbers.
pub fn vector_elem(e1: &ElementType, e2: &ElementType) -> (r: Result<ElementType, EvalError>)
    ensures
        element_outcome(r) == vector_of(e1@, e2@),
{
    match (e1, e2) {
        (ElementType::Number(x), ElementType::Number(y)) => Ok(ElementType::Vector(*x, *y)),
        _ => Err(EvalError::TypeMismatch),
    }
}

/// Making a vector, as a relation.
pub open spec fn making_vector() -> Relation {
    |x: Element, y: Element, z: Result<Element, EvalError>| z == vector_of(x, y)
}

/// The builtin `vector`: [`vector_elem`] lifted over two arguments.
pub fn vector(objects: &Vec<Object>) -> (r: Result<Object, EvalError>)
    ensures
        binary(making_vector(), values(objects@), outcome(r)),
{
    if objects.len() != 2 {
        return Err(EvalError::ArityMismatch);
    }
    let f = |e1: &ElementType, e2: &ElementType| -> (z: Result<ElementType, EvalError>)
        ensures
            element_outcome(z) == vector_of(e1@, e2@),
        { vector_elem(e1, e2) };
    lift(&f, Ghost(making_vector()), &objects[0], &objects[1])
}

/// What `point` makes of two elements.
pub open spec fn point_of(e1: Element, e2: Element) -> Result<Element, EvalError> {
    match (e1, e2) {
        (Element::Number(x), Element::Number(y)) => Ok(Element::Point(x, y)),
        _ => Err(EvalError::TypeMismatch),
    }
}

/// Makes a point of two numbers.
pub fn point_elem(e1: &ElementType, e2: &ElementType) -> (r: Result<ElementType, EvalError>)
    ensures
        element_outcome(r) == point_of(e1@, e2@),
{
    match (e1, e2) {
        (ElementType::Number(x), ElementType::Number(y)) => Ok(ElementType::Point(*x, *y)),
        _ => Err(EvalError::TypeMismatch),
    }
}

/// Making a point, as a relation.
pub open spec fn making_point() -> Relation {
    |x: Element, y: Element, z: Result<Element, EvalError>| z == point_of(x, y)
}

/// The builtin `point`: [`point_elem`] lifted over two arguments.
pub fn point(objects: &Vec<Object>) -> (r: Result<Object, EvalError>)
    ensures
        binary(making_point(), values(objects@), outcome(r)),
{
    if objects.len() != 2 {
        return Err(EvalError::ArityMismatch);
    }
    let f = |e1: &ElementType, e2: &ElementType| -> (z: Result<ElementType, EvalError>)
        ensures
            element_outcome(z) == point_of(e1@, e2@),
        { point_elem(e1, e2) };
    lift(&f, Ghost(making_point()), &objects[0], &objects[1])
}

/// Every element is a point.
pub open spec fn all_points(items: Seq<Element>) -> bool {
    forall|i: int| 0 <= i < items.len() ==> #[trigger] items[i] is Point
}

/// The coordinates of a run of points, in order.
pub open spec fn vertices_of(items: Seq<Element>) -> Seq<(u32, u32)> {
    Seq::new(
        items.len(),
        |i: int|
            match items[i] {
                Element::Point(x, y) => (x, y),
                _ => (0u32, 0u32),
            },
    )
}

/// What `polygon` makes of its arguments: the polygon whose vertices are the
/// points of the one collection it is given, in order. The collection holds
/// at least one element, and points only: an empty collection, a collection
/// with anything else in it and a single element are type mismatches.
pub open spec fn polygon_of(args: Seq<Value>) -> Result<Value, EvalError> {
    if args.len() != 1 {
        Err(EvalError::ArityMismatch)
    } else {
        match args[0] {
            Value::Collection(items) => if items.len() >= 1 && all_points(items) {
                Ok(Value::Element(Element::Polygon(vertices_of(items))))
            } else {
                Err(EvalError::TypeMismatch)
            },
            Value::Element(_) => Err(EvalError::TypeMismatch),
        }
    }
}

/// The builtin `polygon`: the polygon through the points of a collection.
/// It is not lifted.
pub fn polygon(objects: &Vec<Object>) -> (r: Result<Object, EvalError>)
    ensures
        outcome(r) == polygon_of(values(objects@)),
{
    if objects.len() != 1 {
        return Err(EvalError::ArityMismatch);
    }
    match &objects[0] {
        Object::Collection(elements) => {
            if elements.len() == 0 {
                return Err(EvalError::TypeMismatch);
            }
            let ghost items = crate::defs::elements(elements@);
            let mut polygon: Vec<(u32, u32)> = Vec::new();
            let mut i: usize = 0;
            while i < elements.len()
                invariant
                    objects@.len() == 1,
                    values(objects@)[0] == Value::Collection(items),
                    items == crate::defs::elements(elements@),
                    0 < elements@.len(),
                    i <= elements@.len(),
                    polygon@.len() == i,
                    forall|j: int| 0 <= j < i ==> #[trigger] items[j] is Point,
                    forall|j: int| 0 <= j < i ==> #[trigger] polygon@[j] == vertices_of(items)[j],
                decreases elements@.len() - i,
            {
                match &elements[i] {
                    ElementType::Point(x, y) => polygon.push((*x, *y)),
                    _ => return Err(EvalError::TypeMismatch),
                }
                i += 1;
            }
            assert(polygon@ =~= vertices_of(items));
            Ok(Object::Element(ElementType::Polygon(polygon)))
        },
        _ => Err(EvalError::TypeMismatch),
    }
}

// Binary operators

/// `r` is a possible outcome of adding `e2` to `e1`: the sum of two numbers,
/// or of two vectors component by component.
pub open spec fn adds<N: Fn(Arith) -> u32>(
    num: &N,
    e1: Element,
    e2: Element,
    r: Result<Element, EvalError>,
) -> bool {
    match (e1, e2) {
        (Element::Number(a), Element::Number(b)) => {
            &&& r matches Ok(Element::Number(c))
            &&& yields(num, Arith::Add(a, b), c)
        },
        (Element::Vector(x1, y1), Element::Vector(x2, y2)) => {
            &&& r matches Ok(Element::Vector(x, y))
            &&& yields(num, Arith::Add(x1, x2), x)
            &&& yields(num, Arith::Add(y1, y2), y)
        },
        _ => r == Err::<Element, EvalError>(EvalError::TypeMismatch),
    }
}

/// Adds two numbers, or two vectors.
pub fn add_elem<N: Fn(Arith) -> u32>(num: &N, e1: &ElementType, e2: &ElementType) -> (r: Result<
    ElementType,
    EvalError,
>)
    requires
        serves(num),
    ensures
        adds(num, e1@, e2@, element_outcome(r)),
{
    match (e1, e2) {
        (ElementType::Number(a), ElementType::Number(b)) => Ok(
            ElementType::Number(num(Arith::Add(*a, *b))),
        ),
        (ElementType::Vector(x1, y1), ElementType::Vector(x2, y2)) => {
            let x = num(Arith::Add(*x1, *x2));
            let y = num(Arith::Add(*y1, *y2));
            Ok(ElementType::Vector(x, y))
        },
        _ => Err(EvalError::TypeMismatch),
    }
}

/// Adding with the arithmetic `num`, as a relation.
pub open spec fn adding<N: Fn(Arith) -> u32>(num: &N) -> Relation {
    |x: Element, y: Element, z: Result<Element, EvalError>| adds(num, x, y, z)
}

/// The builtin `add`: [`add_elem`] lifted over two arguments.
pub fn add<N: Fn(Arith) -> u32>(num: &N, objects: &Vec<Object>) -> (r: Result<Object, EvalError>)
    requires
        serves(num),
    ensures
        binary(adding(num), values(objects@), outcome(r)),
{
    if objects.len() != 2 {
        return Err(EvalError::ArityMismatch);
    }
    let f = |e1: &ElementType, e2: &ElementType| -> (z: Result<ElementType, EvalError>)
        ensures
            adds(num, e1@, e2@, element_outcome(z)),
        { add_elem(num, e1, e2) };
    lift(&f, Ghost(adding(num)), &objects[0], &objects[1])
}

/// `r` is a possible outcome of subtracting `e2` from `e1`: the difference
/// of two numbers, or of two vectors component by component.
pub open spec fn subtracts<N: Fn(Arith) -> u32>(
    num: &N,
    e1: Element,
    e2: Element,
    r: Result<Element, EvalError>,
) -> bool {
    match (e1, e2) {
        (Element::Number(a), Element::Number(b)) => {
            &&& r matches Ok(Element::Number(c))
            &&& yields(num, Arith::Sub(a, b), c)
        },
        (Element::Vector(x1, y1), Element::Vector(x2, y2)) => {
            &&& r matches Ok(Element::Vector(x, y))
            &&& yields(num, Arith::Sub(x1, x2), x)
            &&& yields(num, Arith::Sub(y1, y2), y)
        },
        _ => r == Err::<Element, EvalError>(EvalError::TypeMismatch),
    }
}

/// Subtracts a number from a number, or a vector from a vector.
pub fn sub_elem<N: Fn(Arith) -> u32>(num: &N, e1: &ElementType, e2: &ElementType) -> (r: Result<
    ElementType,
    EvalError,
>)
    requires
        serves(num),
    ensures
        subtracts(num, e1@, e2@, element_outcome(r)),
{
    match (e1, e2) {
        (ElementType::Number(a), ElementType::Number(b)) => Ok(
            ElementType::Number(num(Arith::Sub(*a, *b))),
        ),
        (ElementType::Vector(x1, y1), ElementType::Vector(x2, y2)) => {
            let x = num(Arith::Sub(*x1, *x2));
            let y = num(Arith::Sub(*y1, *y2));
            Ok(ElementType::Vector(x, y))
        },
        _ => Err(EvalError::TypeMismatch),
    }
}

/// Subtracting with the arithmetic `num`, as a relation.
pub open spec fn subtracting<N: Fn(Arith) -> u32>(num: &N) -> Relation {
    |x: Element, y: Element, z: Result<Element, EvalError>| subtracts(num, x, y, z)
}

/// The builtin `sub`: [`sub_elem`] lifted over two arguments.
pub fn sub<N: Fn(Arith) -> u32>(num: &N, objects: &Vec<Object>) -> (r: Result<Object, EvalError>)
    requires
        serves(num),
    ensures
        binary(subtracting(num), values(objects@), outcome(r)),
{
    if objects.len() != 2 {
        return Err(EvalError::ArityMismatch);
    }
    let f = |e1: &ElementType, e2: &ElementType| -> (z: Result<ElementType, EvalError>)
        ensures
            subtracts(num, e1@, e2@, element_outcome(z)),
        { sub_elem(num, e1, e2) };
    lift(&f, Ghost(subtracting(num)), &objects[0], &objects[1])
}

/// `r` is a possible outcome of multiplying `e1` by `e2`: the product of two
/// numbers, or a vector scaled by the number before it.
pub open spec fn multiplies<N: Fn(Arith) -> u32>(
    num: &N,
    e1: Element,
    e2: Element,
    r: Result<Element, EvalError>,
) -> bool {
    match (e1, e2) {
        (Element::Number(a), Element::Number(b)) => {
            &&& r matches Ok(Element::Number(c))
            &&& yields(num, Arith::Mul(a, b), c)
        },
        (Element::Number(k), Element::Vector(x, y)) => {
            &&& r matches Ok(Element::Vector(kx, ky))
            &&& yields(num, Arith::Mul(k, x), kx)
            &&& yields(num, Arith::Mul(k, y), ky)
        },
        _ => r == Err::<Element, EvalError>(EvalError::TypeMismatch),
    }
}

/// Multiplies two numbers, or scales a vector by the number before it.
pub fn mul_elem<N: Fn(Arith) -> u32>(num: &N, e1: &ElementType, e2: &ElementType) -> (r: Result<
    ElementType,
    EvalError,
>)
    requires
        serves(num),
    ensures
        multiplies(num, e1@, e2@, element_outcome(r)),
{
    match (e1, e2) {
        (ElementType::Number(a), ElementType::Number(b)) => Ok(
            ElementType::Number(num(Arith::Mul(*a, *b))),
        ),
        (ElementType::Number(k), ElementType::Vector(x, y)) => {
            let kx = num(Arith::Mul(*k, *x));
            let ky = num(Arith::Mul(*k, *y));
            Ok(ElementType::Vector(kx, ky))
        },
        _ => Err(EvalError::TypeMismatch),
    }
}

/// Multiplying with the arithmetic `num`, as a relation.
pub open spec fn multiplying<N: Fn(Arith) -> u32>(num: &N) -> Relation {
    |x: Element, y: Element, z: Result<Element, EvalError>| multiplies(num, x, y, z)
}

/// The builtin `mul`: [`mul_elem`] lifted over two arguments.
pub fn mul<N: Fn(Arith) -> u32>(num: &N, objects: &Vec<Object>) -> (r: Result<Object, EvalError>)
    requires
        serves(num),
    ensures
        binary(multiplying(num), values(objects@), outcome(r)),
{
    if objects.len() != 2 {
        return Err(EvalError::ArityMismatch);
    }
    let f = |e1: &ElementType, e2: &ElementType| -> (z: Result<ElementType, EvalError>)
        ensures
            multiplies(num, e1@, e2@, element_outcome(z)),
        { mul_elem(num, e1, e2) };
    lift(&f, Ghost(multiplying(num)), &objects[0], &objects[1])
}

/// `r` is a possible outcome of dividing `e1` by `e2`: the quotient of two
/// numbers, and an error where the divisor is a zero.
pub open spec fn divides<N: Fn(Arith) -> u32>(
    num: &N,
    e1: Element,
    e2: Element,
    r: Result<Element, EvalError>,
) -> bool {
    match (e1, e2) {
        (Element::Number(a), Element::Number(b)) => if is_zero(b) {
            r == Err::<Element, EvalError>(EvalError::DivisionByZero)
        } else {
            &&& r matches Ok(Element::Number(c))
            &&& yields(num, Arith::Div(a, b), c)
        },
        _ => r == Err::<Element, EvalError>(EvalError::TypeMismatch),
    }
}

/// Divides a number by a number that is not a zero.
pub fn div_elem<N: Fn(Arith) -> u32>(num: &N, e1: &ElementType, e2: &ElementType) -> (r: Result<
    ElementType,
    EvalError,
>)
    requires
        serves(num),
    ensures
        divides(num, e1@, e2@, element_outcome(r)),
{
    match (e1, e2) {
        (ElementType::Number(a), ElementType::Number(b)) => {
            if zero(*b) {
                Err(EvalError::DivisionByZero)
            } else {
                Ok(ElementType::Number(num(Arith::Div(*a, *b))))
            }
        },
        _ => Err(EvalError::TypeMismatch),
    }
}

/// Dividing with the arithmetic `num`, as a relation.
pub open spec fn dividing<N: Fn(Arith) -> u32>(num: &N) -> Relation {
    |x: Element, y: Element, z: Result<Element, EvalError>| divides(num, x, y, z)
}

/// The builtin `div`: [`div_elem`] lifted over two arguments.
pub fn div<N: Fn(Arith) -> u32>(num: &N, objects: &Vec<Object>) -> (r: Result<Object, EvalError>)
    requires
        serves(num),
    ensures
        binary(dividing(num), values(objects@), outcome(r)),
{
    if objects.len() != 2 {
        return Err(EvalError::ArityMismatch);
    }
    let f = |e1: &ElementType, e2: &ElementType| -> (z: Result<ElementType, EvalError>)
        ensures
            divides(num, e1@, e2@, element_outcome(z)),
        { div_elem(num, e1, e2) };
    lift(&f, Ghost(dividing(num)), &objects[0], &objects[1])
}

// Transformations

/// `q` is a possible place of `p` after a shift by `d`.
pub open spec fn shifted<N: Fn(Arith) -> u32>(
    num: &N,
    p: (u32, u32),
    d: (u32, u32),
    q: (u32, u32),
) -> bool {
    &&& yields(num, Arith::Add(p.0, d.0), q.0)
    &&& yields(num, Arith::Add(p.1, d.1), q.1)
}

fn shift<N: Fn(Arith) -> u32>(num: &N, p: (u32, u32), d: (u32, u32)) -> (q: (u32, u32))
    requires
        serves(num),
    ensures
        shifted(num, p, d, q),
{
    let x = num(Arith::Add(p.0, d.0));
    let y = num(Arith::Add(p.1, d.1));
    (x, y)
}

/// `r` is a possible outcome of translating `e1` by `e2`: a point shifted by
/// a vector, or a polygon with every vertex shifted, in the same order.
pub open spec fn translates<N: Fn(Arith) -> u32>(
    num: &N,
    e1: Element,
    e2: Element,
    r: Result<Element, EvalError>,
) -> bool {
    match (e1, e2) {
        (Element::Polygon(ps), Element::Vector(dx, dy)) => {
            &&& r matches Ok(Element::Polygon(qs))
            &&& qs.len() == ps.len()
            &&& forall|i: int| 0 <= i < ps.len() ==> shifted(num, ps[i], (dx, dy), #[trigger] qs[i])
        },
        (Element::Point(x, y), Element::Vector(dx, dy)) => {
            &&& r matches Ok(Element::Point(x2, y2))
            &&& shifted(num, (x, y), (dx, dy), (x2, y2))
        },
        _ => r == Err::<Element, EvalError>(EvalError::TypeMismatch),
    }
}

/// Shifts a point, or every vertex of a polygon, by a vector.
pub fn translate_elem<N: Fn(Arith) -> u32>(num: &N, e1: &ElementType, e2: &ElementType) -> (r:
    Result<ElementType, EvalError>)
    requires
        serves(num),
    ensures
        translates(num, e1@, e2@, element_outcome(r)),
{
    match (e1, e2) {
        (ElementType::Polygon(coords), ElementType::Vector(dx, dy)) => {
            let mut new_coords: Vec<(u32, u32)> = Vec::new();
            let mut i: usize = 0;
            while i < coords.len()
                invariant
                    serves(num),
                    i <= coords@.len(),
                    new_coords@.len() == i,
                    forall|j: int|
                        0 <= j < i ==> shifted(
                            num,
                            coords@[j],
                            (*dx, *dy),
                            #[trigger] new_coords@[j],
                        ),
                decreases coords@.len() - i,
            {
                let q = shift(num, coords[i], (*dx, *dy));
                new_coords.push(q);
                i += 1;
            }
            Ok(ElementType::Polygon(new_coords))
        },
        (ElementType::Point(x, y), ElementType::Vector(dx, dy)) => {
            let q = shift(num, (*x, *y), (*dx, *dy));
            Ok(ElementType::Point(q.0, q.1))
        },
        _ => Err(EvalError::TypeMismatch),
    }
}

/// Translating with the arithmetic `num`, as a relation.
pub open spec fn translating<N: Fn(Arith) -> u32>(num: &N) -> Relation {
    |x: Element, y: Element, z: Result<Element, EvalError>| translates(num, x, y, z)
}

/// The builtin `translate`: [`translate_elem`] lifted over two arguments.
pub fn translate<N: Fn(Arith) -> u32>(num: &N, objects: &Vec<Object>) -> (r: Result<
    Object,
    EvalError,
>)
    requires
        serves(num),
    ensures
        binary(translating(num), values(objects@), outcome(r)),
{
    if objects.len() != 2 {
        return Err(EvalError::ArityMismatch);
    }
    let f = |e1: &ElementType, e2: &ElementType| -> (z: Result<ElementType, EvalError>)
        ensures
            translates(num, e1@, e2@, element_outcome(z)),
        { translate_elem(num, e1, e2) };
    lift(&f, Ghost(translating(num)), &objects[0], &objects[1])
}

/// The intermediate results of turning one vertex about a pivot.
pub struct Turn {
    /// The vertex's offset from the pivot.
    pub dx: u32,
    pub dy: u32,
    /// `dx * cos`, `dy * sin`, `dx * sin` and `dy * cos`.
    pub dx_cos: u32,
    pub dy_sin: u32,
    pub dx_sin: u32,
    pub dy_cos: u32,
    /// The turned offset.
    pub tx: u32,
    pub ty: u32,
}

/// `q` is a possible place of `p` after a turn about `pivot`, with `w` the
/// steps in between: the offset `(dx, dy)` of `p` from the pivot becomes
/// `(dx * cos - dy * sin, dx * sin + dy * cos)` and is added to the pivot.
pub open spec fn turned_through<N: Fn(Arith) -> u32>(
    num: &N,
    cos: u32,
    sin: u32,
    pivot: (u32, u32),
    p: (u32, u32),
    q: (u32, u32),
    w: Turn,
) -> bool {
    &&& yields(num, Arith::Sub(p.0, pivot.0), w.dx)
    &&& yields(num, Arith::Sub(p.1, pivot.1), w.dy)
    &&& yields(num, Arith::Mul(w.dx, cos), w.dx_cos)
    &&& yields(num, Arith::Mul(w.dy, sin), w.dy_sin)
    &&& yields(num, Arith::Sub(w.dx_cos, w.dy_sin), w.tx)
    &&& yields(num, Arith::Mul(w.dx, sin), w.dx_sin)
    &&& yields(num, Arith::Mul(w.dy, cos), w.dy_cos)
    &&& yields(num, Arith::Add(w.dx_sin, w.dy_cos), w.ty)
    &&& yields(num, Arith::Add(pivot.0, w.tx), q.0)
    &&& yields(num, Arith::Add(pivot.1, w.ty), q.1)
}

/// `q` is a possible place of `p` after a turn about `pivot` by the angle
/// whose cosine and sine are `cos` and `sin`.
pub open spec fn turned<N: Fn(Arith) -> u32>(
    num: &N,
    cos: u32,
    sin: u32,
    pivot: (u32, u32),
    p: (u32, u32),
    q: (u32, u32),
) -> bool {
    exists|w: Turn| turned_through(num, cos, sin, pivot, p, q, w)
}

fn turn<N: Fn(Arith) -> u32>(num: &N, cos: u32, sin: u32, pivot: (u32, u32), p: (u32, u32)) -> (q: (
    u32,
    u32,
))
    requires
        serves(num),
    ensures
        turned(num, cos, sin, pivot, p, q),
{
    let dx = num(Arith::Sub(p.0, pivot.0));
    let dy = num(Arith::Sub(p.1, pivot.1));
    let dx_cos = num(Arith::Mul(dx, cos));
    let dy_sin = num(Arith::Mul(dy, sin));
    let tx = num(Arith::Sub(dx_cos, dy_sin));
    let dx_sin = num(Arith::Mul(dx, sin));
    let dy_cos = num(Arith::Mul(dy, cos));
    let ty = num(Arith::Add(dx_sin, dy_cos));
    let x = num(Arith::Add(pivot.0, tx));
    let y = num(Arith::Add(pivot.1, ty));
    assert(turned_through(
        num,
        cos,
        sin,
        pivot,
        p,
        (x, y),
        Turn { dx, dy, dx_cos, dy_sin, dx_sin, dy_cos, tx, ty },
    ));
    (x, y)
}

/// `qs` holds a possible place for each of `ps`, in order, after a turn by
/// `angle` about `pivot`, with `cos` and `sin` the angle's cosine and sine.
pub open spec fn turned_with<N: Fn(Arith) -> u32>(
    num: &N,
    angle: u32,
    cos: u32,
    sin: u32,
    pivot: (u32, u32),
    ps: Seq<(u32, u32)>,
    qs: Seq<(u32, u32)>,
) -> bool {
    &&& yields(num, Arith::Cos(angle), cos)
    &&& yields(num, Arith::Sin(angle), sin)
    &&& qs.len() == ps.len()
    &&& forall|i: int| 0 <= i < ps.len() ==> turned(num, cos, sin, pivot, ps[i], #[trigger] qs[i])
}

/// `qs` holds a possible place for each of `ps`, in order, after a turn by
/// `angle` about `pivot`. The cosine and the sine are asked for once.
pub open spec fn all_turned<N: Fn(Arith) -> u32>(
    num: &N,
    angle: u32,
    pivot: (u32, u32),
    ps: Seq<(u32, u32)>,
    qs: Seq<(u32, u32)>,
) -> bool {
    exists|cos: u32, sin: u32| turned_with(num, angle, cos, sin, pivot, ps, qs)
}

/// `r` is a possible outcome of rotating `e1` by the angle `e2`, in radians,
/// about the pivot `e3`: a point or a polygon, every vertex turned, in the
/// same order.
pub open spec fn rotates<N: Fn(Arith) -> u32>(
    num: &N,
    e1: Element,
    e2: Element,
    e3: Element,
    r: Result<Element, EvalError>,
) -> bool {
    match (e3, e1, e2) {
        (Element::Point(x0, y0), Element::Polygon(ps), Element::Number(t)) => {
            &&& r matches Ok(Element::Polygon(qs))
            &&& all_turned(num, t, (x0, y0), ps, qs)
        },
        (Element::Point(x0, y0), Element::Point(x, y), Element::Number(t)) => {
            &&& r matches Ok(Element::Point(x2, y2))
            &&& all_turned(num, t, (x0, y0), seq![(x, y)], seq![(x2, y2)])
        },
        _ => r == Err::<Element, EvalError>(EvalError::TypeMismatch),
    }
}

/// Turns a point, or every vertex of a polygon, by an angle about a pivot.
pub fn rotate_elem<N: Fn(Arith) -> u32>(
    num: &N,
    e1: &ElementType,
    e2: &ElementType,
    e3: &ElementType,
) -> (r: Result<ElementType, EvalError>)
    requires
        serves(num),
    ensures
        rotates(num, e1@, e2@, e3@, element_outcome(r)),
{
    match e3 {
        ElementType::Point(x0, y0) => {
            match (e1, e2) {
                (ElementType::Polygon(coords), ElementType::Number(t)) => {
                    let cos = num(Arith::Cos(*t));
                    let sin = num(Arith::Sin(*t));
                    let mut new_coords: Vec<(u32, u32)> = Vec::new();
                    let mut i: usize = 0;
                    while i < coords.len()
                        invariant
                            serves(num),
                            i <= coords@.len(),
                            new_coords@.len() == i,
                            forall|j: int|
                                0 <= j < i ==> turned(
                                    num,
                                    cos,
                                    sin,
                                    (*x0, *y0),
                                    coords@[j],
                                    #[trigger] new_coords@[j],
                                ),
                        decreases coords@.len() - i,
                    {
                        let q = turn(num, cos, sin, (*x0, *y0), coords[i]);
                        new_coords.push(q);
                        i += 1;
                    }
                    assert(turned_with(num, *t, cos, sin, (*x0, *y0), coords@, new_coords@));
                    Ok(ElementType::Polygon(new_coords))
                },
                (ElementType::Point(x, y), ElementType::Number(t)) => {
                    let cos = num(Arith::Cos(*t));
                    let sin = num(Arith::Sin(*t));
                    let q = turn(num, cos, sin, (*x0, *y0), (*x, *y));
                    assert(turned_with(num, *t, cos, sin, (*x0, *y0), seq![(*x, *y)], seq![q]));
                    Ok(ElementType::Point(q.0, q.1))
                },
                _ => Err(EvalError::TypeMismatch),
            }
        },
        _ => Err(EvalError::TypeMismatch),
    }
}

/// Rotating about `pivot` with the arithmetic `num`, as a relation.
pub open spec fn rotating<N: Fn(Arith) -> u32>(num: &N, pivot: Element) -> Relation {
    |x: Element, y: Element, z: Result<Element, EvalError>| rotates(num, x, y, pivot, z)
}

/// `r` is a possible outcome of `rotate`: with any other number of arguments
/// than three it fails before it looks at them; the third is a single point,
/// and the first two are lifted against it.
pub open spec fn about_pivot<N: Fn(Arith) -> u32>(
    num: &N,
    args: Seq<Value>,
    r: Result<Value, EvalError>,
) -> bool {
    if args.len() != 3 {
        r == Err::<Value, EvalError>(EvalError::ArityMismatch)
    } else {
        match args[2] {
            Value::Element(Element::Point(x0, y0)) => lifted(
                rotating(num, Element::Point(x0, y0)),
                args[0],
                args[1],
                r,
            ),
            _ => r == Err::<Value, EvalError>(EvalError::TypeMismatch),
        }
    }
}

/// The builtin `rotate`: [`rotate_elem`] lifted over the first two of three
/// arguments. The third, the pivot, is not lifted: it is one point.
pub fn rotate<N: Fn(Arith) -> u32>(num: &N, objects: &Vec<Object>) -> (r: Result<Object, EvalError>)
    requires
        serves(num),
    ensures
        about_pivot(num, values(objects@), outcome(r)),
{
    if objects.len() != 3 {
        return Err(EvalError::ArityMismatch);
    }
    match &objects[2] {
        Object::Element(e3) => {
            match e3 {
                ElementType::Point(_, _) => {
                    let rotate_elem_point = |e1: &ElementType, e2: &ElementType| -> (z: Result<
                        ElementType,
                        EvalError,
                    >)
                        ensures
                            rotates(num, e1@, e2@, e3@, element_outcome(z)),
                        { rotate_elem(num, e1, e2, e3) };
                    lift(&rotate_elem_point, Ghost(rotating(num, e3@)), &objects[0], &objects[1])
                },
                _ => Err(EvalError::TypeMismatch),
            }
        },
        _ => Err(EvalError::TypeMismatch),
    }
}

// The dispatch table

/// `r` is a possible outcome of the builtin `f` on the arguments `args`.
pub open spec fn applies<N: Fn(Arith) -> u32>(
    num: &N,
    f: FunctionType,
    args: Seq<Value>,
    r: Result<Value, EvalError>,
) -> bool {
    match f {
        FunctionType::Vector => binary(making_vector(), args, r),
        FunctionType::Point => binary(making_point(), args, r),
        FunctionType::Polygon => r == polygon_of(args),
        FunctionType::Add => binary(adding(num), args, r),
        FunctionType::Sub => binary(subtracting(num), args, r),
        FunctionType::Mul => binary(multiplying(num), args, r),
        FunctionType::Div => binary(dividing(num), args, r),
        FunctionType::Translate => binary(translating(num), args, r),
        FunctionType::Rotate => about_pivot(num, args, r),
    }
}

impl FunctionType {
    /// Calls the builtin on its evaluated arguments.
    pub fn call<N: Fn(Arith) -> u32>(&self, num: &N, objects: &Vec<Object>) -> (r: Result<
        Object,
        EvalError,
    >)
        requires
            serves(num),
        ensures
            applies(num, *self, values(objects@), outcome(r)),
    {
        match self {
            FunctionType::Vector => vector(objects),
            FunctionType::Point => point(objects),
            FunctionType::Polygon => polygon(objects),
            FunctionType::Add => self::add(num, objects),
            FunctionType::Sub => self::sub(num, objects),
            FunctionType::Mul => self::mul(num, objects),
            FunctionType::Div => div(num, objects),
            FunctionType::Translate => translate(num, objects),
            FunctionType::Rotate => rotate(num, objects),
        }
    }
}

} // verus!
