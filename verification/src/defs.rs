//! The value model, the syntax tree and the environment, each with the
//! mathematical model that the contracts speak of.

use vstd::prelude::*;
use vstd::hash_map::StringHashMap;

verus! {

/// Why an evaluation stopped.
#[derive(Clone, Copy, Debug, PartialEq, Eq, Structural)]
pub enum EvalError {
    /// A builtin got the wrong number of arguments.
    ArityMismatch,
    /// The kinds of the arguments are not among those the builtin takes.
    TypeMismatch,
    /// A division whose divisor is a zero.
    DivisionByZero,
    /// A name with no binding.
    UnknownIdentifier,
    /// A call of a name that is bound to something other than a builtin.
    NotCallable,
    /// A render request for something other than polygons.
    NotRenderable,
}

/// The builtins, by identity.
#[derive(Clone, Copy, Debug, PartialEq, Eq, Structural)]
pub enum FunctionType {
    Vector,
    Point,
    Polygon,
    Add,
    Sub,
    Mul,
    Div,
    Translate,
    Rotate,
}

/// A single value. Numbers are single-precision bit patterns.
#[derive(Debug, PartialEq, Eq)]
pub enum ElementType {
    Number(u32),
    Vector(u32, u32),
    Point(u32, u32),
    /// The vertices, in order: at least one in every polygon that the
    /// builtins make.
    Polygon(Vec<(u32, u32)>),
    Function(FunctionType),
}

/// A single element or a collection of elements. A collection holds no
/// collection.
#[derive(Debug, PartialEq, Eq)]
pub enum Object {
    Element(ElementType),
    Collection(Vec<ElementType>),
}

/// The model of an [`ElementType`].
pub enum Element {
    Number(u32),
    Vector(u32, u32),
    Point(u32, u32),
    Polygon(Seq<(u32, u32)>),
    Function(FunctionType),
}

/// The model of an [`Object`].
pub enum Value {
    Element(Element),
    Collection(Seq<Element>),
}

impl View for ElementType {
    type V = Element;

    open spec fn view(&self) -> Element {
        match self {
            ElementType::Number(x) => Element::Number(*x),
            ElementType::Vector(x, y) => Element::Vector(*x, *y),
            ElementType::Point(x, y) => Element::Point(*x, *y),
            ElementType::Polygon(vertices) => Element::Polygon(vertices@),
            ElementType::Function(f) => Element::Function(*f),
        }
    }
}

/// The models of a run of elements.
pub open spec fn elements(items: Seq<ElementType>) -> Seq<Element> {
    items.map_values(|e: ElementType| e@)
}

impl View for Object {
    type V = Value;

    open spec fn view(&self) -> Value {
        match self {
            Object::Element(e) => Value::Element(e@),
            Object::Collection(items) => Value::Collection(elements(items@)),
        }
    }
}

impl Value {
    /// The elements of a value: the element itself, or the collection's.
    pub open spec fn items(self) -> Seq<Element> {
        match self {
            Value::Element(e) => seq![e],
            Value::Collection(items) => items,
        }
    }
}

/// The models of a run of objects.
pub open spec fn values(objects: Seq<Object>) -> Seq<Value> {
    objects.map_values(|o: Object| o@)
}

/// The model of the outcome of an element-level operation.
pub open spec fn element_outcome(r: Result<ElementType, EvalError>) -> Result<Element, EvalError> {
    match r {
        Ok(e) => Ok(e@),
        Err(x) => Err(x),
    }
}

/// The model of the outcome of an evaluation.
pub open spec fn outcome(r: Result<Object, EvalError>) -> Result<Value, EvalError> {
    match r {
        Ok(o) => Ok(o@),
        Err(x) => Err(x),
    }
}

/// A copy of a run of vertices.
pub fn copy_vertices(vertices: &Vec<(u32, u32)>) -> (copy: Vec<(u32, u32)>)
    ensures
        copy@ == vertices@,
{
    let mut copy: Vec<(u32, u32)> = Vec::new();
    let mut i: usize = 0;
    while i < vertices.len()
        invariant
            i <= vertices@.len(),
            copy@ == vertices@.take(i as int),
        decreases vertices@.len() - i,
    {
        copy.push(vertices[i]);
        i += 1;
    }
    copy
}

impl Clone for ElementType {
    fn clone(&self) -> (r: Self)
        ensures
            r@ == self@,
    {
        match self {
            ElementType::Number(x) => ElementType::Number(*x),
            ElementType::Vector(x, y) => ElementType::Vector(*x, *y),
            ElementType::Point(x, y) => ElementType::Point(*x, *y),
            ElementType::Polygon(vertices) => ElementType::Polygon(copy_vertices(vertices)),
            ElementType::Function(f) => ElementType::Function(*f),
        }
    }
}

impl Clone for Object {
    fn clone(&self) -> (r: Self)
        ensures
            r@ == self@,
    {
        match self {
            Object::Element(e) => Object::Element(e.clone()),
            Object::Collection(items) => {
                let mut copy: Vec<ElementType> = Vec::new();
                let mut i: usize = 0;
                while i < items.len()
                    invariant
                        i <= items@.len(),
                        copy@.len() == i,
                        forall|j: int| 0 <= j < i ==> copy@[j]@ == items@[j]@,
                    decreases items@.len() - i,
                {
                    copy.push(items[i].clone());
                    i += 1;
                }
                assert(elements(copy@) =~= elements(items@));
                Object::Collection(copy)
            },
        }
    }
}

impl Object {
    /// The elements that the object holds: the element itself, or the
    /// collection's.
    pub open spec fn held(self) -> Seq<ElementType> {
        match self {
            Object::Element(e) => seq![e],
            Object::Collection(items) => items@,
        }
    }

    /// The model's elements are the models of the elements held.
    pub proof fn lemma_held(self)
        ensures
            self@.items() == elements(self.held()),
    {
    }

    /// How many elements the object holds: one, or the collection's size.
    pub fn count(&self) -> (n: usize)
        ensures
            n == self.held().len(),
            n == self@.items().len(),
    {
        proof {
            self.lemma_held();
        }
        match self {
            Object::Element(_) => 1,
            Object::Collection(items) => items.len(),
        }
    }

    /// The element at position `i`.
    pub fn item(&self, i: usize) -> (e: &ElementType)
        requires
            i < self.held().len(),
        ensures
            *e == self.held()[i as int],
            e@ == self@.items()[i as int],
    {
        proof {
            self.lemma_held();
        }
        match self {
            Object::Element(e) => e,
            Object::Collection(items) => &items[i],
        }
    }
}

/// A call of a named function on argument expressions.
#[derive(Debug, PartialEq, Eq)]
pub struct FunctionCall {
    pub fun: String,
    pub args: Vec<Expression>,
}

/// An expression of the language.
#[derive(Debug, PartialEq, Eq)]
pub enum Expression {
    /// A number literal, as its bit pattern.
    Number(u32),
    Ident(String),
    /// A collection literal.
    Collection(Vec<Expression>),
    FunctionCall(FunctionCall),
}

/// `ident = expr;`
#[derive(Debug, PartialEq, Eq)]
pub struct Assignment {
    pub ident: String,
    pub expr: Expression,
}

/// `expr > "filename";`
#[derive(Debug, PartialEq, Eq)]
pub struct Output {
    pub filename: String,
    pub expr: Expression,
}

/// A statement of the language.
#[derive(Debug, PartialEq, Eq)]
pub enum Statement {
    Assignment(Assignment),
    Output(Output),
}

/// The model of an [`Expression`].
pub enum Expr {
    Number(u32),
    Ident(Seq<char>),
    Collection(Seq<Expr>),
    FunctionCall { fun: Seq<char>, args: Seq<Expr> },
}

/// The model of a [`Statement`].
pub enum Stmt {
    Assignment { ident: Seq<char>, expr: Expr },
    Output { filename: Seq<char>, expr: Expr },
}

/// The model of an expression: the same tree, over sequences.
pub open spec fn model_of(e: Expression) -> Expr
    decreases e,
{
    match e {
        Expression::Number(n) => Expr::Number(n),
        Expression::Ident(name) => Expr::Ident(name@),
        Expression::Collection(items) => Expr::Collection(
            Seq::new(
                items@.len(),
                |i: int|
                    if 0 <= i < items@.len() {
                        model_of(items@[i])
                    } else {
                        Expr::Number(0)
                    },
            ),
        ),
        Expression::FunctionCall(call) => Expr::FunctionCall {
            fun: call.fun@,
            args: Seq::new(
                call.args@.len(),
                |i: int|
                    if 0 <= i < call.args@.len() {
                        model_of(call.args@[i])
                    } else {
                        Expr::Number(0)
                    },
            ),
        },
    }
}

/// The models of a run of expressions.
pub open spec fn exprs(items: Seq<Expression>) -> Seq<Expr> {
    items.map_values(|e: Expression| e@)
}

/// The model of a collection literal holds the models of its items.
pub proof fn lemma_collection_model(items: Vec<Expression>)
    ensures
        Expression::Collection(items)@ == Expr::Collection(exprs(items@)),
{
    let e = Expression::Collection(items);
    let s = e@->Collection_0;
    assert(s =~= exprs(items@));
}

/// The model of a call holds the models of its arguments.
pub proof fn lemma_call_model(call: FunctionCall)
    ensures
        Expression::FunctionCall(call)@ == (Expr::FunctionCall {
            fun: call.fun@,
            args: exprs(call.args@),
        }),
{
    assert(Expression::FunctionCall(call)@->args =~= exprs(call.args@));
}

impl View for Expression {
    type V = Expr;

    open spec fn view(&self) -> Expr {
        model_of(*self)
    }
}

impl View for Statement {
    type V = Stmt;

    open spec fn view(&self) -> Stmt {
        match self {
            Statement::Assignment(a) => Stmt::Assignment { ident: a.ident@, expr: a.expr@ },
            Statement::Output(o) => Stmt::Output { filename: o.filename@, expr: o.expr@ },
        }
    }
}

/// The models of a run of statements.
pub open spec fn stmts(items: Seq<Statement>) -> Seq<Stmt> {
    items.map_values(|s: Statement| s@)
}

/// The environment: what each bound name is bound to.
pub struct Context {
    pub objects: StringHashMap<Object>,
}

impl View for Context {
    type V = Map<Seq<char>, Value>;

    open spec fn view(&self) -> Map<Seq<char>, Value> {
        self.objects@.map_values(|o: Object| o@)
    }
}

/// The elements of a run of values, one level of collections taken away.
pub open spec fn flattened(vals: Seq<Value>) -> Seq<Element>
    decreases vals.len(),
{
    if vals.len() == 0 {
        Seq::empty()
    } else {
        flattened(vals.drop_last()) + vals.last().items()
    }
}

/// What a name stands for in `env`.
pub open spec fn lookup(env: Map<Seq<char>, Value>, name: Seq<char>) -> Result<Value, EvalError> {
    if env.contains_key(name) {
        Ok(env[name])
    } else {
        Err(EvalError::UnknownIdentifier)
    }
}

impl Object {
    /// The collection of all that `objects` hold, in order, with no
    /// collection inside it: each object gives its elements.
    pub fn collection(objects: &Vec<Object>) -> (r: Object)
        ensures
            r@ == Value::Collection(flattened(values(objects@))),
    {
        let mut out: Vec<ElementType> = Vec::new();
        let mut i: usize = 0;
        while i < objects.len()
            invariant
                i <= objects@.len(),
                elements(out@) == flattened(values(objects@).take(i as int)),
            decreases objects@.len() - i,
        {
            let ghost done = elements(out@);
            let object = &objects[i];
            let n = object.count();
            let mut j: usize = 0;
            while j < n
                invariant
                    n == object@.items().len(),
                    j <= n,
                    elements(out@) == done + object@.items().take(j as int),
                decreases n - j,
            {
                let ghost before = elements(out@);
                out.push(object.item(j).clone());
                assert(elements(out@) =~= before.push(object@.items()[j as int]));
                j += 1;
            }
            assert(values(objects@).take(i + 1).drop_last() =~= values(objects@).take(i as int));
            i += 1;
        }
        assert(values(objects@).take(objects@.len() as int) =~= values(objects@));
        Object::Collection(out)
    }
}

impl Context {
    /// What `name` is bound to.
    pub fn lookup(&self, name: &str) -> (r: Result<Object, EvalError>)
        ensures
            outcome(r) == lookup(self@, name@),
    {
        match self.objects.get(name) {
            Some(object) => Ok(object.clone()),
            None => Err(EvalError::UnknownIdentifier),
        }
    }

    /// Binds `name` to `value`, in place of what it was bound to.
    pub fn bind(&mut self, name: String, value: Object)
        ensures
            final(self)@ == old(self)@.insert(name@, value@),
    {
        self.objects.insert(name, value);
    }
}

} // verus!
