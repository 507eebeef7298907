//! Running statements: what a program binds, and what it asks to be drawn.

use vstd::prelude::*;
use vstd::hash_map::StringHashMap;
use vstd::string::StringExecFns;
use crate::arith::{serves, Arith};
use crate::builtins::{catalog, lemma_names_differ};
use crate::defs::{
    copy_vertices, stmts, Assignment, Context, Element, ElementType, EvalError, Expr, Expression,
    FunctionCall, FunctionType, Object, Output, Statement, Stmt, Value,
};
use crate::expr::evaluates;

verus! {

/// What a render request asks for: the polygons to draw, in order, and the
/// name of the file to draw them in.
#[derive(Debug, PartialEq, Eq)]
pub struct Rendering {
    pub filename: String,
    pub polygons: Vec<Vec<(u32, u32)>>,
}

/// The model of a [`Rendering`].
pub struct Picture {
    pub filename: Seq<char>,
    pub polygons: Seq<Seq<(u32, u32)>>,
}

/// The models of a run of polygons.
pub open spec fn outlines(polygons: Seq<Vec<(u32, u32)>>) -> Seq<Seq<(u32, u32)>> {
    polygons.map_values(|p: Vec<(u32, u32)>| p@)
}

impl View for Rendering {
    type V = Picture;

    open spec fn view(&self) -> Picture {
        Picture { filename: self.filename@, polygons: outlines(self.polygons@) }
    }
}

/// The models of a run of renderings.
pub open spec fn pictures(renderings: Seq<Rendering>) -> Seq<Picture> {
    renderings.map_values(|r: Rendering| r@)
}

/// Every element is a polygon.
pub open spec fn all_polygons(items: Seq<Element>) -> bool {
    forall|i: int| 0 <= i < items.len() ==> #[trigger] items[i] is Polygon
}

/// The vertices of a run of polygons, in order.
pub open spec fn vertices_in(items: Seq<Element>) -> Seq<Seq<(u32, u32)>> {
    Seq::new(
        items.len(),
        |i: int|
            match items[i] {
                Element::Polygon(vertices) => vertices,
                _ => Seq::empty(),
            },
    )
}

/// The polygons that a value stands for when it is drawn: the value is one
/// polygon, or a collection of polygons only.
pub open spec fn drawn(v: Value) -> Result<Seq<Seq<(u32, u32)>>, EvalError> {
    if all_polygons(v.items()) {
        Ok(vertices_in(v.items()))
    } else {
        Err(EvalError::NotRenderable)
    }
}

/// The model of the outcome of taking the polygons of a value.
pub open spec fn outlines_outcome(r: Result<Vec<Vec<(u32, u32)>>, EvalError>) -> Result<
    Seq<Seq<(u32, u32)>>,
    EvalError,
> {
    match r {
        Ok(polygons) => Ok(outlines(polygons@)),
        Err(e) => Err(e),
    }
}

/// The polygons to draw for `object`, in order.
pub fn polygons_of(object: &Object) -> (r: Result<Vec<Vec<(u32, u32)>>, EvalError>)
    ensures
        outlines_outcome(r) == drawn(object@),
{
    let n = object.count();
    let mut polygons: Vec<Vec<(u32, u32)>> = Vec::new();
    let mut i: usize = 0;
    while i < n
        invariant
            n == object@.items().len(),
            i <= n,
            polygons@.len() == i,
            forall|j: int| 0 <= j < i ==> #[trigger] object@.items()[j] is Polygon,
            forall|j: int|
                0 <= j < i ==> #[trigger] polygons@[j]@ == vertices_in(object@.items())[j],
        decreases n - i,
    {
        match object.item(i) {
            ElementType::Polygon(points) => polygons.push(copy_vertices(points)),
            _ => return Err(EvalError::NotRenderable),
        }
        i += 1;
    }
    assert(outlines(polygons@) =~= vertices_in(object@.items()));
    Ok(polygons)
}

/// The state of a run: the bindings, and the pictures asked for so far.
pub struct State {
    pub env: Map<Seq<char>, Value>,
    pub shown: Seq<Picture>,
}

/// `after` is a possible state once `stmt` has run in the state `before`.
///
/// An assignment binds its name to the value of its expression, in place of
/// what the name was bound to. A render request adds the picture of its
/// expression's value.
pub open spec fn steps<N: Fn(Arith) -> u32>(
    num: &N,
    before: State,
    stmt: Stmt,
    after: State,
) -> bool {
    match stmt {
        Stmt::Assignment { ident, expr } => {
            &&& after.shown == before.shown
            &&& exists|v: Value|
                evaluates(num, before.env, expr, Ok(v)) && after.env
                    == #[trigger] before.env.insert(ident, v)
        },
        Stmt::Output { filename, expr } => {
            &&& after.env == before.env
            &&& exists|v: Value|
                evaluates(num, before.env, expr, Ok(v)) && (#[trigger] drawn(v) matches Ok(polygons)
                    && after.shown == before.shown.push(Picture { filename, polygons }))
        },
    }
}

/// `stmt` may fail with `e` in `env`: its expression fails, or it asks to
/// draw a value that holds something other than polygons.
pub open spec fn halts<N: Fn(Arith) -> u32>(
    num: &N,
    env: Map<Seq<char>, Value>,
    stmt: Stmt,
    e: EvalError,
) -> bool {
    match stmt {
        Stmt::Assignment { ident, expr } => evaluates(num, env, expr, Err(e)),
        Stmt::Output { filename, expr } => {
            ||| evaluates(num, env, expr, Err(e))
            ||| exists|v: Value|
                evaluates(num, env, expr, Ok(v)) && #[trigger] drawn(v) == Err::<
                    Seq<Seq<(u32, u32)>>,
                    EvalError,
                >(e)
        },
    }
}

/// `end` is a possible state once every statement of `program` has run, in
/// order, from the state `start`.
pub open spec fn runs<N: Fn(Arith) -> u32>(
    num: &N,
    start: State,
    program: Seq<Stmt>,
    end: State,
) -> bool
    decreases program.len(),
{
    if program.len() == 0 {
        end == start
    } else {
        exists|mid: State|
            runs(num, start, program.drop_last(), mid) && #[trigger] steps(
                num,
                mid,
                program.last(),
                end,
            )
    }
}

/// The first `k` statements of `program` may run from `start` to `mid`, and
/// the next may then fail with `e`.
pub open spec fn breaks_at<N: Fn(Arith) -> u32>(
    num: &N,
    start: State,
    program: Seq<Stmt>,
    k: int,
    mid: State,
    e: EvalError,
) -> bool {
    &&& 0 <= k < program.len()
    &&& runs(num, start, program.take(k), mid)
    &&& halts(num, mid.env, program[k], e)
}

/// `r` is a possible outcome of running `program` from the state `start`:
/// the state at the end, or the error of the first statement that fails.
pub open spec fn run_outcome<N: Fn(Arith) -> u32>(
    num: &N,
    start: State,
    program: Seq<Stmt>,
    r: Result<State, EvalError>,
) -> bool {
    match r {
        Ok(end) => runs(num, start, program, end),
        Err(e) => exists|k: int, mid: State| breaks_at(num, start, program, k, mid, e),
    }
}

/// The bindings before any statement has run: every builtin under its name.
pub open spec fn defaults() -> Map<Seq<char>, Value> {
    catalog().map_values(|f: FunctionType| Value::Element(Element::Function(f)))
}

/// The pictures that one statement adds.
pub open spec fn pictured(out: Option<Rendering>) -> Seq<Picture> {
    match out {
        Some(rendering) => seq![rendering@],
        None => Seq::empty(),
    }
}

impl Context {
    /// The environment that every program starts in.
    pub fn default() -> (r: Self)
        ensures
            r@ == defaults(),
    {
        let mut objects: StringHashMap<Object> = StringHashMap::new();
        objects.insert(String::from_str("vector"), Self::builtin(FunctionType::Vector));
        objects.insert(String::from_str("point"), Self::builtin(FunctionType::Point));
        objects.insert(String::from_str("polygon"), Self::builtin(FunctionType::Polygon));
        objects.insert(String::from_str("add"), Self::builtin(FunctionType::Add));
        objects.insert(String::from_str("sub"), Self::builtin(FunctionType::Sub));
        objects.insert(String::from_str("mul"), Self::builtin(FunctionType::Mul));
        objects.insert(String::from_str("div"), Self::builtin(FunctionType::Div));
        objects.insert(String::from_str("translate"), Self::builtin(FunctionType::Translate));
        objects.insert(String::from_str("rotate"), Self::builtin(FunctionType::Rotate));
        let r = Self { objects };
        proof {
            lemma_names_differ(FunctionType::Vector);
            lemma_names_differ(FunctionType::Point);
            lemma_names_differ(FunctionType::Polygon);
            lemma_names_differ(FunctionType::Add);
            lemma_names_differ(FunctionType::Sub);
            lemma_names_differ(FunctionType::Mul);
            lemma_names_differ(FunctionType::Div);
            lemma_names_differ(FunctionType::Translate);
            lemma_names_differ(FunctionType::Rotate);
        }
        r
    }

    fn builtin(f: FunctionType) -> (r: Object)
        ensures
            r@ == Value::Element(Element::Function(f)),
    {
        Object::Element(ElementType::Function(f))
    }

    /// Runs one statement. A render request gives back what to draw.
    pub fn exec<N: Fn(Arith) -> u32>(&mut self, num: &N, statement: &Statement) -> (r: Result<
        Option<Rendering>,
        EvalError,
    >)
        requires
            serves(num),
        ensures
            match r {
                Ok(out) => steps(
                    num,
                    State { env: old(self)@, shown: Seq::empty() },
                    statement@,
                    State { env: final(self)@, shown: pictured(out) },
                ),
                Err(e) => halts(num, old(self)@, statement@, e) && final(self)@ == old(self)@,
            },
    {
        match statement {
            Statement::Assignment(assignment) => {
                match self.exec_assignement(num, assignment) {
                    Ok(()) => Ok(None),
                    Err(e) => Err(e),
                }
            },
            Statement::Output(render) => {
                match self.exec_render(num, render) {
                    Ok(rendering) => Ok(Some(rendering)),
                    Err(e) => Err(e),
                }
            },
        }
    }

    /// Binds the name of `assignment` to the value of its expression.
    pub fn exec_assignement<N: Fn(Arith) -> u32>(
        &mut self,
        num: &N,
        assignment: &Assignment,
    ) -> (r: Result<(), EvalError>)
        requires
            serves(num),
        ensures
            match r {
                Ok(()) => steps(
                    num,
                    State { env: old(self)@, shown: Seq::empty() },
                    Statement::Assignment(*assignment)@,
                    State { env: final(self)@, shown: Seq::empty() },
                ),
                Err(e) => halts(num, old(self)@, Statement::Assignment(*assignment)@, e)
                    && final(self)@ == old(self)@,
            },
    {
        match assignment.expr.eval(num, self) {
            Ok(object) => {
                let ghost v = object@;
                self.bind(assignment.ident.clone(), object);
                proof {
                    let before = State { env: old(self)@, shown: Seq::empty() };
                    let after = State { env: self@, shown: Seq::empty() };
                    let stmt = Statement::Assignment(*assignment)@;
                    assert(after.env == before.env.insert(stmt->ident, v));
                }
                Ok(())
            },
            Err(e) => Err(e),
        }
    }

    /// Evaluates the expression of `render` and takes the polygons of its
    /// value.
    pub fn exec_render<N: Fn(Arith) -> u32>(&self, num: &N, render: &Output) -> (r: Result<
        Rendering,
        EvalError,
    >)
        requires
            serves(num),
        ensures
            match r {
                Ok(rendering) => steps(
                    num,
                    State { env: self@, shown: Seq::empty() },
                    Statement::Output(*render)@,
                    State { env: self@, shown: seq![rendering@] },
                ),
                Err(e) => halts(num, self@, Statement::Output(*render)@, e),
            },
    {
        match render.expr.eval(num, self) {
            Ok(object) => {
                match polygons_of(&object) {
                    Ok(polygons) => {
                        let rendering = Rendering { filename: render.filename.clone(), polygons };
                        assert(drawn(object@) matches Ok(polygons) && seq![rendering@]
                            == Seq::<Picture>::empty().push(
                            Picture { filename: Statement::Output(*render)@->filename, polygons },
                        ));
                        Ok(rendering)
                    },
                    Err(e) => Err(e),
                }
            },
            Err(e) => Err(e),
        }
    }
}

/// A program: statements, to be run in order.
#[derive(Debug, PartialEq, Eq)]
pub struct Program(pub Vec<Statement>);

impl View for Program {
    type V = Seq<Stmt>;

    open spec fn view(&self) -> Seq<Stmt> {
        stmts(self.0@)
    }
}

/// The state in which every program starts: the builtins are bound and
/// nothing is shown.
pub open spec fn start() -> State {
    State { env: defaults(), shown: Seq::empty() }
}

/// The model of the outcome of a run that ended in the bindings `env`.
pub open spec fn run_end(
    env: Map<Seq<char>, Value>,
    r: Result<Vec<Rendering>, EvalError>,
) -> Result<
    State,
    EvalError,
> {
    match r {
        Ok(renderings) => Ok(State { env, shown: pictures(renderings@) }),
        Err(e) => Err(e),
    }
}

/// What a statement does to the bindings and what it shows do not depend on
/// what was shown before it.
pub proof fn lemma_steps_later<N: Fn(Arith) -> u32>(
    num: &N,
    env: Map<Seq<char>, Value>,
    stmt: Stmt,
    after: State,
    shown: Seq<Picture>,
)
    requires
        steps(num, State { env, shown: Seq::empty() }, stmt, after),
    ensures
        steps(
            num,
            State { env, shown },
            stmt,
            State { env: after.env, shown: shown + after.shown },
        ),
{
    let before = State { env, shown };
    let later = State { env: after.env, shown: shown + after.shown };
    match stmt {
        Stmt::Assignment { ident, expr } => {
            let v = choose|v: Value|
                evaluates(num, env, expr, Ok(v)) && after.env == #[trigger] env.insert(ident, v);
            assert(later.env == before.env.insert(ident, v));
        },
        Stmt::Output { filename, expr } => {
            let v = choose|v: Value|
                evaluates(num, env, expr, Ok(v)) && (#[trigger] drawn(v) matches Ok(polygons)
                    && after.shown == Seq::<Picture>::empty().push(Picture { filename, polygons }));
            assert(drawn(v) matches Ok(polygons) && later.shown =~= before.shown.push(
                Picture { filename, polygons },
            ));
        },
    }
}

impl Context {
    /// Runs the statements of `program` in order, up to the first that
    /// fails, and gives back what they ask to draw.
    pub fn run<N: Fn(Arith) -> u32>(&mut self, num: &N, program: &Program) -> (r: Result<
        Vec<Rendering>,
        EvalError,
    >)
        requires
            serves(num),
        ensures
            run_outcome(
                num,
                State { env: old(self)@, shown: Seq::empty() },
                program@,
                run_end(final(self)@, r),
            ),
    {
        let ghost begin = State { env: old(self)@, shown: Seq::empty() };
        let mut renderings: Vec<Rendering> = Vec::new();
        let mut i: usize = 0;
        assert(pictures(renderings@) =~= begin.shown);
        while i < program.0.len()
            invariant
                serves(num),
                begin == (State { env: old(self)@, shown: Seq::empty() }),
                i <= program@.len(),
                program@.len() == program.0@.len(),
                runs(
                    num,
                    begin,
                    program@.take(i as int),
                    State { env: self@, shown: pictures(renderings@) },
                ),
            decreases program@.len() - i,
        {
            let ghost mid = State { env: self@, shown: pictures(renderings@) };
            match self.exec(num, &program.0[i]) {
                Ok(out) => {
                    proof {
                        lemma_steps_later(
                            num,
                            mid.env,
                            program@[i as int],
                            State { env: self@, shown: pictured(out) },
                            mid.shown,
                        );
                        assert(program@.take(i + 1).drop_last() =~= program@.take(i as int));
                        assert(program@.take(i + 1).last() == program@[i as int]);
                    }
                    match out {
                        Some(rendering) => {
                            renderings.push(rendering);
                            assert(pictures(renderings@) =~= mid.shown + pictured(out));
                        },
                        None => {},
                    }
                },
                Err(e) => {
                    assert(breaks_at(num, begin, program@, i as int, mid, e));
                    return Err(e);
                },
            }
            i += 1;
        }
        assert(program@.take(i as int) =~= program@);
        Ok(renderings)
    }
}

/// Runs `program` in the default environment and gives back, in order, what
/// it asks to draw. Nothing is given back if a statement fails.
pub fn exec<N: Fn(Arith) -> u32>(num: &N, program: &Program) -> (r: Result<
    Vec<Rendering>,
    EvalError,
>)
    requires
        serves(num),
    ensures
        exists|env: Map<Seq<char>, Value>| #[trigger]
            run_outcome(num, start(), program@, run_end(env, r)),
{
    let mut context = Context::default();
    let r = context.run(num, program);
    assert(run_outcome(num, start(), program@, run_end(context@, r)));
    r
}

/// The request to draw what `fun` makes of `a` and `b`, in the file
/// `filename`.
pub open spec fn draws_of_a_and_b(fun: Seq<char>, filename: Seq<char>) -> Stmt {
    Stmt::Output {
        filename,
        expr: Expr::FunctionCall { fun, args: seq![Expr::Ident("a"@), Expr::Ident("b"@)] },
    }
}

/// The sample program: `a` is 2, `b` is 3, and the sum, the difference, the
/// product and the quotient of the two are each asked to be drawn.
pub open spec fn test_program() -> Seq<Stmt> {
    seq![
        Stmt::Assignment { ident: "a"@, expr: Expr::Number(0x4000_0000) },
        Stmt::Assignment { ident: "b"@, expr: Expr::Number(0x4040_0000) },
        draws_of_a_and_b("add"@, "add.svg"@),
        draws_of_a_and_b("sub"@, "sub.svg"@),
        draws_of_a_and_b("mul"@, "mul.svg"@),
        draws_of_a_and_b("div"@, "div.svg"@),
    ]
}

fn render_of_a_and_b(fun: &str, filename: &str) -> (r: Statement)
    ensures
        r@ == draws_of_a_and_b(fun@, filename@),
{
    let mut args: Vec<Expression> = Vec::new();
    args.push(Expression::Ident(String::from_str("a")));
    args.push(Expression::Ident(String::from_str("b")));
    let call = FunctionCall { fun: String::from_str(fun), args };
    proof {
        crate::defs::lemma_call_model(call);
        assert(crate::defs::exprs(call.args@) =~= seq![Expr::Ident("a"@), Expr::Ident("b"@)]);
    }
    Statement::Output(
        Output { filename: String::from_str(filename), expr: Expression::FunctionCall(call) },
    )
}

/// Builds the sample program.
pub fn get_test_program() -> (program: Program)
    ensures
        program@ == test_program(),
{
    let n1 = Expression::Number(0x4000_0000);
    let n2 = Expression::Number(0x4040_0000);
    let asg1 = Assignment { ident: String::from_str("a"), expr: n1 };
    let asg2 = Assignment { ident: String::from_str("b"), expr: n2 };
    let render1 = render_of_a_and_b("add", "add.svg");
    let render2 = render_of_a_and_b("sub", "sub.svg");
    let render3 = render_of_a_and_b("mul", "mul.svg");
    let render4 = render_of_a_and_b("div", "div.svg");
    let mut statements: Vec<Statement> = Vec::new();
    statements.push(Statement::Assignment(asg1));
    statements.push(Statement::Assignment(asg2));
    statements.push(render1);
    statements.push(render2);
    statements.push(render3);
    statements.push(render4);
    let program = Program(statements);
    program
}

} // verus!
