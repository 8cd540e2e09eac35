use starlark::ast::{Argument, Assign, AstExpr, AstLiteral, BinOp, Clause, Expr, ForClause};
use starlark::compiled::{ExprCompiled, ExprCompiledValue, Node};
use starlark::compiler::Compiler;
use starlark::errors::{Error, ErrorKind, Span};
use starlark::scope::{Scope, Slot};
use starlark::state::{Evaluator, Program};
use starlark::stdlib::{global_functions, GlobalsBuilder};
use starlark::value::Value;

const LEVELS: usize = 50;

fn node(node: Expr) -> AstExpr {
    AstExpr { span: Span { begin: 0, end: 0 }, node }
}

fn number(i: i32) -> AstExpr {
    node(Expr::Literal(AstLiteral::IntLiteral(i)))
}

fn string(s: &str) -> AstExpr {
    node(Expr::Literal(AstLiteral::StringLiteral(s.to_owned())))
}

fn var(s: &str) -> AstExpr {
    node(Expr::Identifier(s.to_owned()))
}

fn items(xs: Vec<AstExpr>) -> AstExpr {
    node(Expr::List(xs))
}

fn pair(a: AstExpr, b: AstExpr) -> AstExpr {
    node(Expr::Tuple(vec![a, b]))
}

fn binary(l: AstExpr, o: BinOp, r: AstExpr) -> AstExpr {
    node(Expr::Op(Box::new(l), o, Box::new(r)))
}

fn apply(f: AstExpr, args: Vec<AstExpr>) -> AstExpr {
    node(Expr::Call(Box::new(f), args.into_iter().map(Argument::Positional).collect()))
}

fn target(s: &str) -> Assign {
    Assign::Identifier(s.to_owned())
}

fn each(v: Assign, over: AstExpr) -> ForClause {
    ForClause { var: v, over }
}

fn list_of(x: AstExpr, first: ForClause, rest: Vec<Clause>) -> AstExpr {
    node(Expr::ListComprehension(Box::new(x), Box::new(first), rest))
}

fn dict_of(k: AstExpr, v: AstExpr, first: ForClause, rest: Vec<Clause>) -> AstExpr {
    node(Expr::DictComprehension(Box::new((k, v)), Box::new(first), rest))
}

struct Run {
    ev: Evaluator,
    prog: Program,
    exprs: Vec<ExprCompiled>,
}

fn run(defs: Vec<(&str, AstExpr)>, exprs: Vec<AstExpr>) -> Run {
    let mut b = GlobalsBuilder::new();
    global_functions(&mut b);
    starlark::stdlib::enumeration(&mut b);
    starlark::stdlib::methods(&mut b);
    let (mem, globals) = b.build();
    let names: Vec<String> = defs.iter().map(|d| d.0.to_owned()).collect();
    let mut compiler = Compiler::new(mem, globals, names.clone());
    let mut compiled_defs = Vec::new();
    for (_, e) in &defs {
        compiled_defs.push(compiler.expr(e).as_compiled(e.span));
    }
    let mut compiled = Vec::new();
    for e in &exprs {
        compiled.push(compiler.expr(e).as_compiled(e.span));
    }
    let (mem, prog) = compiler.finish();
    let mut ev = Evaluator::new(mem, names.len());
    ev.enter_module(prog.locals);
    for (i, c) in compiled_defs.iter().enumerate() {
        let v = ev.eval(&prog, c, LEVELS).expect("a definition evaluates");
        ev.set_slot_module(i, &names[i], v).expect("the slot exists");
    }
    Run { ev, prog, exprs: compiled }
}

impl Run {
    fn eval(&mut self, i: usize) -> Result<Value, Error> {
        self.ev.eval(&self.prog, &self.exprs[i], LEVELS)
    }

    fn shown(&mut self, i: usize) -> String {
        let v = self.eval(i).expect("the expression evaluates");
        self.ev.mem.to_repr(v).expect("the value has a representation")
    }
}

fn shown(e: AstExpr) -> String {
    run(vec![], vec![e]).shown(0)
}

#[test]
fn list_comprehension_maps_each_value() {
    // [x * 2 for x in [1, 2, 3]]
    let e = list_of(
        binary(var("x"), BinOp::Multiply, number(2)),
        each(target("x"), items(vec![number(1), number(2), number(3)])),
        vec![],
    );
    assert_eq!(shown(e), "[2, 4, 6]");
}

#[test]
fn list_comprehension_of_nothing_is_empty() {
    let e = list_of(var("x"), each(target("x"), items(vec![])), vec![]);
    assert_eq!(shown(e), "[]");
}

#[test]
fn if_clause_filters() {
    // [x for x in range(6) if x % 2 == 0]
    let even = binary(binary(var("x"), BinOp::Percent, number(2)), BinOp::Equal, number(0));
    let e = list_of(
        var("x"),
        each(target("x"), apply(var("range"), vec![number(6)])),
        vec![Clause::If(even)],
    );
    assert_eq!(shown(e), "[0, 2, 4]");
}

#[test]
fn for_clauses_nest_in_order() {
    // [(x, y) for x in [1, 2] for y in [x, 10]]
    let e = list_of(
        pair(var("x"), var("y")),
        each(target("x"), items(vec![number(1), number(2)])),
        vec![Clause::For(each(target("y"), items(vec![var("x"), number(10)])))],
    );
    assert_eq!(shown(e), "[(1, 1), (1, 10), (2, 2), (2, 10)]");
}

#[test]
fn clauses_after_an_if_only_run_where_it_holds() {
    // [x + y for x in [1, 2, 3] if x != 2 for y in [10, 20] if y != 10 or x == 3]
    let not_two = binary(var("x"), BinOp::NotEqual, number(2));
    let second = binary(
        binary(var("y"), BinOp::NotEqual, number(10)),
        BinOp::Or,
        binary(var("x"), BinOp::Equal, number(3)),
    );
    let e = list_of(
        binary(var("x"), BinOp::Add, var("y")),
        each(target("x"), items(vec![number(1), number(2), number(3)])),
        vec![
            Clause::If(not_two),
            Clause::For(each(target("y"), items(vec![number(10), number(20)]))),
            Clause::If(second),
        ],
    );
    assert_eq!(shown(e), "[21, 13, 23]");
}

#[test]
fn dict_comprehension_sets_each_key() {
    // {x: x * x for x in [1, 2, 3]}
    let e = dict_of(
        var("x"),
        binary(var("x"), BinOp::Multiply, var("x")),
        each(target("x"), items(vec![number(1), number(2), number(3)])),
        vec![],
    );
    assert_eq!(shown(e), "{1: 1, 2: 4, 3: 9}");
}

#[test]
fn dict_comprehension_keeps_the_last_value_of_a_key() {
    // {x % 2: x for x in [1, 2, 3]}: the key 1 keeps its place and takes the value 3.
    let e = dict_of(
        binary(var("x"), BinOp::Percent, number(2)),
        var("x"),
        each(target("x"), items(vec![number(1), number(2), number(3)])),
        vec![],
    );
    assert_eq!(shown(e), "{1: 3, 0: 2}");
}

#[test]
fn dict_comprehension_needs_hashable_keys() {
    // {[x]: x for x in [1]}
    let e = dict_of(
        items(vec![var("x")]),
        var("x"),
        each(target("x"), items(vec![number(1)])),
        vec![],
    );
    assert_eq!(run(vec![], vec![e]).eval(0).unwrap_err().kind, ErrorKind::NotSupported);
}

#[test]
fn tuple_targets_unpack() {
    // [a + b for (a, b) in [(1, 2), (3, 4)]]
    let e = list_of(
        binary(var("a"), BinOp::Add, var("b")),
        each(
            Assign::Tuple(vec![target("a"), target("b")]),
            items(vec![pair(number(1), number(2)), pair(number(3), number(4))]),
        ),
        vec![],
    );
    assert_eq!(shown(e), "[3, 7]");
}

#[test]
fn nested_tuple_targets_unpack() {
    // [a + b + c for (a, (b, c)) in [(1, (2, 3))]]
    let e = list_of(
        binary(binary(var("a"), BinOp::Add, var("b")), BinOp::Add, var("c")),
        each(
            Assign::Tuple(vec![
                target("a"),
                Assign::Tuple(vec![target("b"), target("c")]),
            ]),
            items(vec![pair(number(1), pair(number(2), number(3)))]),
        ),
        vec![],
    );
    assert_eq!(shown(e), "[6]");
}

#[test]
fn unpacking_the_wrong_number_of_values_fails() {
    // [a for (a, b) in [(1, 2, 3)]]
    let three = node(Expr::Tuple(vec![number(1), number(2), number(3)]));
    let e = list_of(
        var("a"),
        each(Assign::Tuple(vec![target("a"), target("b")]), items(vec![three])),
        vec![],
    );
    assert_eq!(run(vec![], vec![e]).eval(0).unwrap_err().kind, ErrorKind::WrongType);
    // [a for (a, b) in [1]]: an integer yields nothing.
    let e = list_of(
        var("a"),
        each(Assign::Tuple(vec![target("a"), target("b")]), items(vec![number(1)])),
        vec![],
    );
    assert!(run(vec![], vec![e]).eval(0).is_err());
}

#[test]
fn iterating_over_an_integer_fails() {
    let e = list_of(var("x"), each(target("x"), number(3)), vec![]);
    assert!(run(vec![], vec![e]).eval(0).is_err());
}

#[test]
fn comprehension_variables_end_with_it() {
    // [x for x in [1]] and then x: the name is no longer known.
    let e = list_of(var("x"), each(target("x"), items(vec![number(1)])), vec![]);
    let mut r = run(vec![], vec![e, var("x")]);
    assert_eq!(r.shown(0), "[1]");
    assert_eq!(r.eval(1).unwrap_err().kind, ErrorKind::VariableNotFound);
}

#[test]
fn comprehension_variables_shadow_module_variables() {
    // x = 7; [x for x in [1, 2]] is [1, 2], and x is 7 afterwards.
    let e = list_of(var("x"), each(target("x"), items(vec![number(1), number(2)])), vec![]);
    let mut r = run(vec![("x", number(7))], vec![e, var("x")]);
    assert_eq!(r.shown(0), "[1, 2]");
    assert_eq!(r.shown(1), "7");
}

#[test]
fn the_first_container_is_evaluated_outside() {
    // x = [1, 2]; [x for x in x] ranges over the module variable.
    let e = list_of(var("x"), each(target("x"), var("x")), vec![]);
    let mut r = run(vec![("x", items(vec![number(1), number(2)]))], vec![e]);
    assert_eq!(r.shown(0), "[1, 2]");
}

#[test]
fn comprehensions_in_functions_use_their_slots() {
    // (lambda n: [x + n for x in range(n)])(3)
    let body = list_of(
        binary(var("x"), BinOp::Add, var("n")),
        each(target("x"), apply(var("range"), vec![var("n")])),
        vec![],
    );
    let f = node(Expr::Lambda(
        vec![starlark::ast::Parameter::Normal("n".to_owned())],
        Box::new(body),
    ));
    assert_eq!(shown(apply(f, vec![number(3)])), "[3, 4, 5]");
}

#[test]
fn functions_in_comprehensions_capture_their_variables() {
    // [(lambda: x + 1)() for x in [1, 2]]
    let f = node(Expr::Lambda(vec![], Box::new(binary(var("x"), BinOp::Add, number(1)))));
    let e = list_of(
        apply(f, vec![]),
        each(target("x"), items(vec![number(1), number(2)])),
        vec![],
    );
    assert_eq!(shown(e), "[2, 3]");
}

#[test]
fn comprehension_over_an_enumeration() {
    // [v.value for v in Colors]
    let colors = apply(var("enum"), vec![string("Red"), string("Green"), string("Blue")]);
    let e = list_of(
        node(Expr::Dot(Box::new(var("v")), "value".to_owned())),
        each(target("v"), var("Colors")),
        vec![],
    );
    let mut r = run(vec![("Colors", colors)], vec![e]);
    assert_eq!(r.shown(0), "[\"Red\", \"Green\", \"Blue\"]");
}

#[test]
fn the_container_is_locked_while_a_comprehension_runs() {
    // [l.append(x) for x in l] fails, and l can be changed afterwards.
    let append = |v: AstExpr| {
        apply(node(Expr::Dot(Box::new(var("l")), "append".to_owned())), vec![v])
    };
    let e = list_of(append(var("x")), each(target("x"), var("l")), vec![]);
    let mut r = run(
        vec![("l", apply(var("list"), vec![pair(number(1), number(2))]))],
        vec![e, var("l"), append(number(3)), var("l")],
    );
    assert_eq!(r.eval(0).unwrap_err().kind, ErrorKind::MutationDuringIteration);
    assert_eq!(r.shown(1), "[1, 2]");
    assert!(r.eval(2).is_ok());
    assert_eq!(r.shown(3), "[1, 2, 3]");
}

#[test]
fn comprehensions_are_not_folded() {
    let mut b = GlobalsBuilder::new();
    global_functions(&mut b);
    let (mem, globals) = b.build();
    let mut c = Compiler::new(mem, globals, vec![]);
    let e = list_of(number(1), each(target("x"), items(vec![number(1)])), vec![]);
    match c.expr(&e) {
        ExprCompiledValue::Compiled(ExprCompiled { node: Node::ListComp(_, clauses), .. }) => {
            assert_eq!(clauses.len(), 1);
        }
        _ => panic!("a comprehension compiles to its node"),
    }
    let (_, prog) = c.finish();
    assert_eq!(prog.locals, 1);
}

#[test]
fn targets_define_their_names_in_order() {
    let t = Assign::Tuple(vec![
        target("a"),
        Assign::Tuple(vec![target("b"), target("c")]),
        target("d"),
    ]);
    let mut names = vec!["z".to_owned()];
    Expr::collect_defines_lvalue(&t, &mut names);
    assert_eq!(names, vec!["z", "a", "b", "c", "d"]);
}

#[test]
fn scopes_add_and_forget_locals() {
    let mut s = Scope::new(vec!["m".to_owned()]);
    assert_eq!(s.locals(), 0);
    assert_eq!(s.get_name("x"), None);
    assert_eq!(s.add_local("x"), 0);
    assert_eq!(s.add_local("y"), 1);
    assert_eq!(s.add_local("x"), 2);
    assert_eq!(s.locals(), 3);
    assert_eq!(s.get_name("x"), Some(Slot::Local(2)));
    s.forget(2);
    assert_eq!(s.get_name("x"), Some(Slot::Local(0)));
    s.forget(0);
    assert_eq!(s.get_name("x"), None);
    assert_eq!(s.get_name("y"), Some(Slot::Local(1)));
    assert_eq!(s.get_name("m"), Some(Slot::Module(0)));
    assert_eq!(s.locals(), 3);
    // Out of range: nothing changes.
    s.forget(9);
    assert_eq!(s.get_name("y"), Some(Slot::Local(1)));
}

#[test]
fn nodes_have_stable_names() {
    let mut b = GlobalsBuilder::new();
    global_functions(&mut b);
    let (mem, globals) = b.build();
    let mut c = Compiler::new(mem, globals, vec!["m".to_owned()]);
    let named = |c: &mut Compiler, e: AstExpr| c.expr(&e).as_compiled(e.span).node.name();
    let clause = || each(target("x"), items(vec![var("m")]));
    assert_eq!(named(&mut c, list_of(var("x"), clause(), vec![])), "list_comprehension");
    assert_eq!(named(&mut c, dict_of(var("x"), var("x"), clause(), vec![])), "dict_comprehension");
    assert_eq!(named(&mut c, number(1)), "value");
    assert_eq!(named(&mut c, var("m")), "module");
    assert_eq!(named(&mut c, items(vec![])), "list_empty");
    assert_eq!(named(&mut c, items(vec![number(1)])), "value");
    assert_eq!(named(&mut c, items(vec![var("m")])), "list");
    assert_eq!(named(&mut c, binary(var("m"), BinOp::NotIn, var("m"))), "not_in");
    assert_eq!(named(&mut c, binary(var("m"), BinOp::FloorDivide, var("m"))), "floor_divide");
    assert_eq!(starlark::arith::op_name(starlark::arith::BinaryOp::FloorDivide), "//");
    assert_eq!(starlark::arith::op_name(starlark::arith::BinaryOp::LeftShift), "<<");
}

#[test]
fn a_cancelled_evaluation_stops_in_a_comprehension() {
    // [x for x in (1, 2)] calls nothing, and still sees the flag.
    let e = list_of(var("x"), each(target("x"), pair(number(1), number(2))), vec![]);
    let mut r = run(vec![], vec![e]);
    assert_eq!(r.shown(0), "[1, 2]");
    r.ev.cancelled = true;
    assert_eq!(r.eval(0).unwrap_err().kind, ErrorKind::Cancelled);
    r.ev.cancelled = false;
    assert_eq!(r.shown(0), "[1, 2]");
}
