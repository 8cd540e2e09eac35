use starlark::ast::{Argument, AstExpr, AstLiteral, BinOp, Expr, Parameter};
use starlark::compiled::ExprCompiled;
use starlark::compiler::Compiler;
use starlark::errors::{Error, ErrorKind, Span};
use starlark::state::{Evaluator, Program};
use starlark::compiled::ExprCompiledValue;
use starlark::stdlib::{global_functions, GlobalsBuilder};
use starlark::value::{FrozenValue, Value};

const DEPTH: usize = 50;

fn at(node: Expr) -> AstExpr {
    AstExpr { span: Span { begin: 0, end: 0 }, node }
}

fn num(i: i32) -> AstExpr {
    at(Expr::Literal(AstLiteral::IntLiteral(i)))
}

fn text(s: &str) -> AstExpr {
    at(Expr::Literal(AstLiteral::StringLiteral(s.to_owned())))
}

fn name(s: &str) -> AstExpr {
    at(Expr::Identifier(s.to_owned()))
}

fn list(xs: Vec<AstExpr>) -> AstExpr {
    at(Expr::List(xs))
}

fn tuple(xs: Vec<AstExpr>) -> AstExpr {
    at(Expr::Tuple(xs))
}

fn dict(xs: Vec<(AstExpr, AstExpr)>) -> AstExpr {
    at(Expr::Dict(xs))
}

fn op(l: AstExpr, o: BinOp, r: AstExpr) -> AstExpr {
    at(Expr::Op(Box::new(l), o, Box::new(r)))
}

fn call(f: AstExpr, args: Vec<AstExpr>) -> AstExpr {
    at(Expr::Call(Box::new(f), args.into_iter().map(Argument::Positional).collect()))
}

fn call_with(f: AstExpr, args: Vec<Argument>) -> AstExpr {
    at(Expr::Call(Box::new(f), args))
}

fn method(receiver: AstExpr, m: &str, args: Vec<AstExpr>) -> AstExpr {
    let dot = at(Expr::Dot(Box::new(receiver), m.to_owned()));
    call(dot, args)
}

fn lambda(params: Vec<Parameter>, body: AstExpr) -> AstExpr {
    at(Expr::Lambda(params, Box::new(body)))
}

fn param(s: &str) -> Parameter {
    Parameter::Normal(s.to_owned())
}

fn if_else(c: AstExpr, t: AstExpr, f: AstExpr) -> AstExpr {
    at(Expr::If(Box::new(c), Box::new(t), Box::new(f)))
}

/// A module under test: variables that are defined first, then expressions to evaluate.
struct Session {
    ev: Evaluator,
    prog: Program,
    exprs: Vec<ExprCompiled>,
}

fn session(defs: Vec<(&str, AstExpr)>, exprs: Vec<AstExpr>) -> Session {
    let mut b = GlobalsBuilder::new();
    global_functions(&mut b);
    starlark::stdlib::filter(&mut b);
    starlark::stdlib::map(&mut b);
    starlark::stdlib::partial(&mut b);
    starlark::stdlib::debug(&mut b);
    starlark::stdlib::dedupe(&mut b);
    starlark::stdlib::print(&mut b);
    starlark::stdlib::json(&mut b);
    starlark::stdlib::abs(&mut b);
    starlark::stdlib::enumeration(&mut b);
    starlark::stdlib::methods(&mut b);
    let (mem, globals) = b.build();
    let names: Vec<String> = defs.iter().map(|d| d.0.to_owned()).collect();
    let mut compiler = Compiler::new(mem, globals, names.clone());
    let mut compiled_defs = Vec::new();
    for (_, e) in &defs {
        compiled_defs.push(compiler.expr(e).as_compiled(e.span));
    }
    let mut compiled = Vec::new();
    for e in &exprs {
        compiled.push(compiler.expr(e).as_compiled(e.span));
    }
    let (mem, prog) = compiler.finish();
    let mut ev = Evaluator::new(mem, names.len());
    ev.enter_module(prog.locals);
    for (i, c) in compiled_defs.iter().enumerate() {
        let v = ev.eval(&prog, c, DEPTH).expect("a definition evaluates");
        ev.set_slot_module(i, &names[i], v).expect("the slot exists");
    }
    Session { ev, prog, exprs: compiled }
}

impl Session {
    fn eval(&mut self, i: usize) -> Result<Value, Error> {
        self.ev.eval(&self.prog, &self.exprs[i], DEPTH)
    }

    fn repr(&mut self, i: usize) -> String {
        let v = self.eval(i).expect("the expression evaluates");
        self.ev.mem.to_repr(v).expect("the value has a representation")
    }
}

/// Evaluates each pair and checks that the two values are equal.
fn assert_eq_all(defs: Vec<(&str, AstExpr)>, pairs: Vec<(AstExpr, AstExpr)>) {
    let mut exprs = Vec::new();
    for (a, b) in pairs {
        exprs.push(a);
        exprs.push(b);
    }
    let n = exprs.len() / 2;
    let mut s = session(defs, exprs);
    for i in 0..n {
        let a = s.eval(2 * i).expect("the expected value evaluates");
        let b = s.eval(2 * i + 1).expect("the expression evaluates");
        let same = s.ev.mem.equals(a, b).expect("the values compare");
        let shown_a = s.ev.mem.to_repr(a).unwrap();
        let shown_b = s.ev.mem.to_repr(b).unwrap();
        assert!(same, "pair {}: expected {}, got {}", i, shown_a, shown_b);
    }
}

fn repr_of(e: AstExpr) -> String {
    session(vec![], vec![e]).repr(0)
}

fn error_of(e: AstExpr) -> Error {
    session(vec![], vec![e]).eval(0).expect_err("the expression fails")
}

#[test]
fn test_debug() {
    assert_eq_all(
        vec![],
        vec![(
            call(name("debug"), vec![list(vec![num(1), num(2)])]),
            text("Value(ListGen { content: [Value(1), Value(2)] })"),
        )],
    );
}

#[test]
fn print_joins_its_arguments() {
    let mut s = session(
        vec![],
        vec![
            call(name("print"), vec![text("a"), num(1), list(vec![text("b")])]),
            call(name("print"), vec![]),
            call(name("print"), vec![text("only")]),
        ],
    );
    assert_eq!(s.repr(0), "None");
    assert_eq!(s.repr(1), "None");
    assert_eq!(s.repr(2), "None");
    assert_eq!(s.ev.output, vec!["a 1 [\"b\"]".to_owned(), "".to_owned(), "only".to_owned()]);
}

#[test]
fn sorted_is_stable_and_reversible() {
    assert_eq!(
        repr_of(call(name("sorted"), vec![list(vec![num(3), num(1), num(4), num(1), num(5), num(9)])])),
        "[1, 1, 3, 4, 5, 9]"
    );
    let words = || list(vec![text("two"), text("three"), text("four")]);
    let by_len = |reverse: bool| {
        let mut args = vec![
            Argument::Positional(words()),
            Argument::Named("key".to_owned(), name("len")),
        ];
        if reverse {
            args.push(Argument::Named("reverse".to_owned(), name("True")));
        }
        call_with(name("sorted"), args)
    };
    assert_eq!(repr_of(by_len(false)), "[\"two\", \"four\", \"three\"]");
    assert_eq!(repr_of(by_len(true)), "[\"three\", \"four\", \"two\"]");
    let e = error_of(call(name("sorted"), vec![list(vec![num(1), text("a")])]));
    assert_eq!(e.kind, ErrorKind::NotSupported);
}

#[test]
fn max_and_min() {
    let numbers = || list(vec![num(3), num(1), num(4), num(1), num(5), num(9)]);
    assert_eq!(repr_of(call(name("max"), vec![numbers()])), "9");
    assert_eq!(repr_of(call(name("min"), vec![numbers()])), "1");
    assert_eq!(repr_of(call(name("max"), vec![text("two"), text("three"), text("four")])), "\"two\"");
    assert_eq!(repr_of(call(name("min"), vec![text("two"), text("three"), text("four")])), "\"four\"");
    let keyed = |f: &str| {
        call_with(
            name(f),
            vec![
                Argument::Positional(text("two")),
                Argument::Positional(text("three")),
                Argument::Positional(text("four")),
                Argument::Named("key".to_owned(), name("len")),
            ],
        )
    };
    assert_eq!(repr_of(keyed("max")), "\"three\"");
    assert_eq!(repr_of(keyed("min")), "\"two\"");
    assert_eq!(error_of(call(name("max"), vec![list(vec![])])).kind, ErrorKind::UserFail);
}

#[test]
fn json_of_values() {
    let v = dict(vec![
        (text("a"), list(vec![num(1), name("True"), name("None")])),
        (text("b"), text("it's \"x\"")),
    ]);
    assert_eq_all(
        vec![],
        vec![(
            call(name("json"), vec![v]),
            text("{\"a\":[1,true,null],\"b\":\"it's \\\"x\\\"\"}"),
        )],
    );
    assert_eq!(error_of(call(name("json"), vec![name("len")])).kind, ErrorKind::NotSupported);
    assert_eq!(
        error_of(call(name("json"), vec![dict(vec![(num(1), num(2))])])).kind,
        ErrorKind::NotSupported
    );
}

#[test]
fn repr_and_str() {
    assert_eq!(repr_of(call(name("repr"), vec![num(1)])), "\"1\"");
    assert_eq!(repr_of(call(name("repr"), vec![text("x")])), "\"\\\"x\\\"\"");
    assert_eq!(repr_of(call(name("str"), vec![text("x")])), "\"x\"");
    assert_eq!(repr_of(call(name("str"), vec![list(vec![num(1), text("x")])])), "\"[1, \\\"x\\\"]\"");
    assert_eq!(repr_of(tuple(vec![num(1)])), "(1,)");
    assert_eq!(repr_of(call(name("range"), vec![num(1), num(5)])), "range(1, 5)");
    assert_eq!(repr_of(name("len")), "len");
    assert_eq!(repr_of(text("test \"'")), "\"test \\\"\\'\"");
}

#[test]
fn int_from_text() {
    let int_of = |s: &str| repr_of(call(name("int"), vec![text(s)]));
    assert_eq!(repr_of(call(name("int"), vec![])), "0");
    assert_eq!(int_of("1"), "1");
    assert_eq!(int_of("16"), "16");
    assert_eq!(int_of("-0x1f"), "-31");
    assert_eq!(int_of("0b101"), "5");
    assert_eq!(int_of("0o17"), "15");
    assert_eq!(repr_of(call(name("int"), vec![text("16"), num(8)])), "14");
    assert_eq!(repr_of(call(name("int"), vec![text("16"), num(16)])), "22");
    assert_eq!(repr_of(call(name("int"), vec![name("True")])), "1");
    let e = error_of(call(name("int"), vec![text("hello")]));
    assert!(e.to_string().contains("not a valid number"));
    assert_eq!(error_of(call(name("int"), vec![text("1"), num(1)])).kind, ErrorKind::UserFail);
    assert_eq!(error_of(call(name("int"), vec![text("1"), num(37)])).kind, ErrorKind::UserFail);
    assert_eq!(error_of(call(name("int"), vec![text("")])).kind, ErrorKind::UserFail);
    assert_eq!(
        error_of(call(name("int"), vec![name("True"), num(2)])).kind,
        ErrorKind::UnexpectedNamed
    );
}

#[test]
fn any_all_bool_len() {
    assert_eq!(repr_of(call(name("any"), vec![list(vec![num(0), name("True")])])), "True");
    assert_eq!(repr_of(call(name("any"), vec![list(vec![num(0), name("False")])])), "False");
    assert_eq!(repr_of(call(name("all"), vec![list(vec![num(1), name("True")])])), "True");
    assert_eq!(repr_of(call(name("all"), vec![list(vec![num(0), num(1)])])), "False");
    assert_eq!(repr_of(call(name("bool"), vec![])), "False");
    assert_eq!(repr_of(call(name("bool"), vec![list(vec![num(1)])])), "True");
    assert_eq!(repr_of(call(name("bool"), vec![text("")])), "False");
    assert_eq!(repr_of(call(name("len"), vec![dict(vec![(text("16"), num(10))])])), "1");
    assert_eq!(error_of(call(name("len"), vec![name("True")])).kind, ErrorKind::NotSupported);
    assert!(error_of(call(name("len"), vec![name("True")])).to_string().contains("not supported"));
}

#[test]
fn dict_zip_enumerate_reversed() {
    assert_eq_all(
        vec![],
        vec![
            (dict(vec![]), call(name("dict"), vec![])),
            (
                dict(vec![(num(1), num(2)), (text("a"), text("b"))]),
                call(
                    name("dict"),
                    vec![list(vec![tuple(vec![num(1), num(2)]), list(vec![text("a"), text("b")])])],
                ),
            ),
            (
                dict(vec![(text("x"), num(3))]),
                call_with(
                    name("dict"),
                    vec![
                        Argument::Positional(list(vec![tuple(vec![text("x"), num(2)])])),
                        Argument::Named("x".to_owned(), num(3)),
                    ],
                ),
            ),
            (list(vec![]), call(name("zip"), vec![])),
            (
                list(vec![tuple(vec![num(0), text("a")]), tuple(vec![num(1), text("b")])]),
                call(
                    name("zip"),
                    vec![call(name("range"), vec![num(5)]), list(vec![text("a"), text("b")])],
                ),
            ),
            (
                list(vec![tuple(vec![num(1), text("one")]), tuple(vec![num(2), text("two")])]),
                call(name("enumerate"), vec![list(vec![text("one"), text("two")]), num(1)]),
            ),
            (
                list(vec![num(4), num(3), num(2), num(1), num(0)]),
                call(name("reversed"), vec![call(name("range"), vec![num(5)])]),
            ),
            (
                list(vec![text("one"), text("two")]),
                method(dict(vec![(text("one"), num(1)), (text("two"), num(2))]), "keys", vec![]),
            ),
        ],
    );
    let e = error_of(call(name("dict"), vec![list(vec![num(1)])]));
    assert!(e.to_string().contains("non-pair"));
}

#[test]
fn attributes_of_values() {
    assert_eq_all(
        vec![("Colors", call(name("enum"), vec![text("Red")]))],
        vec![
            (name("True"), call(name("hasattr"), vec![name("Colors"), text("type")])),
            (name("False"), call(name("hasattr"), vec![name("Colors"), text("nothing")])),
            (name("True"), call(name("hasattr"), vec![list(vec![]), text("append")])),
            (text("Colors"), call(name("getattr"), vec![name("Colors"), text("type")])),
            (num(7), call(name("getattr"), vec![name("Colors"), text("nothing"), num(7)])),
            (list(vec![text("type")]), call(name("dir"), vec![name("Colors")])),
            (list(vec![text("index"), text("value")]), call(name("dir"), vec![call(name("Colors"), vec![text("Red")])])),
            (list(vec![text("append")]), call(name("dir"), vec![list(vec![])])),
            (text("int"), at(Expr::Dot(Box::new(name("int")), "type".to_owned()))),
            (text("function"), call(name("type"), vec![name("len")])),
            (text("NoneType"), call(name("type"), vec![name("None")])),
            (text("string"), call(name("type"), vec![text("hello")])),
        ],
    );
    let mut s = session(
        vec![("l", list(vec![]))],
        vec![
            call(call(name("getattr"), vec![name("l"), text("append")]), vec![num(5)]),
            name("l"),
        ],
    );
    assert!(s.eval(0).is_ok());
    assert_eq!(s.repr(1), "[5]");
    assert_eq!(
        error_of(call(name("getattr"), vec![num(1), text("nothing")])).kind,
        ErrorKind::NotSupported
    );
}

#[test]
fn operators() {
    let bin = |l: AstExpr, o: BinOp, r: AstExpr| repr_of(op(l, o, r));
    assert_eq!(bin(num(7), BinOp::FloorDivide, num(2)), "3");
    assert_eq!(bin(num(-7), BinOp::FloorDivide, num(2)), "-4");
    assert_eq!(bin(num(7), BinOp::FloorDivide, num(-2)), "-4");
    assert_eq!(bin(num(-7), BinOp::Percent, num(2)), "1");
    assert_eq!(bin(num(7), BinOp::Percent, num(-2)), "-1");
    assert_eq!(bin(num(6), BinOp::BitAnd, num(3)), "2");
    assert_eq!(bin(num(6), BinOp::BitOr, num(3)), "7");
    assert_eq!(bin(num(6), BinOp::BitXor, num(3)), "5");
    assert_eq!(bin(num(1), BinOp::LeftShift, num(10)), "1024");
    assert_eq!(bin(num(-1024), BinOp::RightShift, num(3)), "-128");
    assert_eq!(bin(num(-1), BinOp::RightShift, num(40)), "-1");
    assert_eq!(bin(list(vec![num(1)]), BinOp::Add, list(vec![num(2)])), "[1, 2]");
    assert_eq!(bin(num(2), BinOp::In, list(vec![num(1), num(2)])), "True");
    assert_eq!(bin(num(3), BinOp::NotIn, list(vec![num(1), num(2)])), "True");
    assert_eq!(bin(text("ell"), BinOp::In, text("hello")), "True");
    assert_eq!(bin(text("a"), BinOp::Less, text("b")), "True");
    assert_eq!(bin(num(2), BinOp::GreaterOrEqual, num(2)), "True");
    assert_eq!(bin(num(0), BinOp::Or, text("x")), "\"x\"");
    assert_eq!(bin(num(0), BinOp::And, text("x")), "0");
    assert_eq!(repr_of(at(Expr::BitNot(Box::new(num(5))))), "-6");
    let overflow = |e: AstExpr| error_of(e).kind;
    assert_eq!(overflow(op(num(i32::MAX), BinOp::Add, num(1))), ErrorKind::UserFail);
    assert_eq!(overflow(op(num(1), BinOp::FloorDivide, num(0))), ErrorKind::UserFail);
    assert_eq!(overflow(op(num(1), BinOp::Percent, num(0))), ErrorKind::UserFail);
    assert_eq!(overflow(op(num(1), BinOp::LeftShift, num(-1))), ErrorKind::UserFail);
    assert_eq!(overflow(op(num(1), BinOp::LeftShift, num(31))), ErrorKind::UserFail);
    assert_eq!(overflow(op(num(1), BinOp::Subtract, text("a"))), ErrorKind::NotSupported);
    assert_eq!(overflow(call(name("abs"), vec![at(Expr::Minus(Box::new(num(i32::MIN))))])), ErrorKind::UserFail);
    assert_eq!(repr_of(call(name("abs"), vec![num(-5)])), "5");
}

#[test]
fn indexing_and_slicing() {
    let index = |c: AstExpr, i: AstExpr| at(Expr::ArrayIndirection(Box::new(c), Box::new(i)));
    let slice = |c: AstExpr, a: Option<i32>, b: Option<i32>, s: Option<i32>| {
        let f = |x: Option<i32>| x.map(|v| Box::new(num(v)));
        at(Expr::Slice(Box::new(c), f(a), f(b), f(s)))
    };
    let five = || list(vec![num(0), num(1), num(2), num(3), num(4)]);
    assert_eq!(repr_of(index(five(), num(-1))), "4");
    assert_eq!(repr_of(index(text("abc"), num(1))), "\"b\"");
    assert_eq!(repr_of(index(dict(vec![(text("a"), num(1))]), text("a"))), "1");
    assert_eq!(repr_of(slice(five(), Some(1), Some(4), None)), "[1, 2, 3]");
    assert_eq!(repr_of(slice(five(), None, None, Some(-1))), "[4, 3, 2, 1, 0]");
    assert_eq!(repr_of(slice(five(), Some(-2), None, None)), "[3, 4]");
    assert_eq!(repr_of(slice(five(), None, None, Some(2))), "[0, 2, 4]");
    assert_eq!(repr_of(slice(five(), Some(10), Some(20), None)), "[]");
    assert_eq!(repr_of(slice(text("hello"), Some(1), Some(3), None)), "\"el\"");
    assert_eq!(repr_of(slice(tuple(vec![num(1), num(2)]), Some(1), None, None)), "(2,)");
    assert_eq!(error_of(index(five(), num(5))).kind, ErrorKind::IndexOutOfRange);
    assert_eq!(error_of(index(dict(vec![]), num(1))).kind, ErrorKind::KeyNotFound);
    assert_eq!(error_of(slice(five(), None, None, Some(0))).kind, ErrorKind::UserFail);
}

#[test]
fn errors_of_calls() {
    let f = || lambda(vec![param("a"), param("b")], name("a"));
    let kind = |args: Vec<Argument>| {
        let mut s = session(vec![("f", f())], vec![call_with(name("f"), args)]);
        s.eval(0).unwrap_err().kind
    };
    let pos = Argument::Positional;
    let named = |n: &str, v: AstExpr| Argument::Named(n.to_owned(), v);
    assert_eq!(kind(vec![pos(num(1))]), ErrorKind::MissingRequired);
    assert_eq!(kind(vec![pos(num(1)), pos(num(2)), pos(num(3))]), ErrorKind::TooManyPositional);
    assert_eq!(kind(vec![pos(num(1)), named("a", num(2))]), ErrorKind::DuplicateNamedArgument);
    assert_eq!(kind(vec![named("a", num(2))]), ErrorKind::MissingRequired);
    assert_eq!(
        kind(vec![pos(num(1)), pos(num(2)), named("a", num(2))]),
        ErrorKind::DuplicateNamedArgument
    );
    assert_eq!(kind(vec![pos(num(1)), named("c", num(2))]), ErrorKind::UnexpectedNamed);
    assert_eq!(
        kind(vec![pos(num(1)), named("b", num(2)), Argument::KWargs(dict(vec![(text("b"), num(3))]))]),
        ErrorKind::DuplicateNamedArgument
    );
    assert_eq!(error_of(call(num(1), vec![])).kind, ErrorKind::NotSupported);
    assert_eq!(error_of(call(name("hash"), vec![])).kind, ErrorKind::MissingRequired);
    assert_eq!(error_of(call(name("fail"), vec![text("this is an error")])).kind, ErrorKind::UserFail);
    assert!(error_of(call(name("fail"), vec![text("this is an error")]))
        .to_string()
        .contains("this is an error"));
}

#[test]
fn errors_of_variables_and_dictionaries() {
    let mut s = session(
        vec![],
        vec![
            name("nowhere"),
            dict(vec![(call(name("str"), vec![num(1)]), num(1)), (text("1"), num(2))]),
            dict(vec![(list(vec![]), num(1))]),
        ],
    );
    assert_eq!(s.eval(0).unwrap_err().kind, ErrorKind::VariableNotFound);
    assert_eq!(s.eval(1).unwrap_err().kind, ErrorKind::DuplicateDictionaryKey);
    assert_eq!(s.eval(2).unwrap_err().kind, ErrorKind::NotSupported);
    assert_eq!(
        s.ev.set_slot_module(3, "x", Value::Int(1)).unwrap_err().kind,
        ErrorKind::CannotSetVariable
    );
    assert_eq!(
        s.ev.mem.get_ref_mut(Value::Int(1)).unwrap_err().kind,
        ErrorKind::CannotMutateImmutable
    );
    let mut t = session(vec![], vec![call(name("hash"), vec![text("a")])]);
    t.ev.cancelled = true;
    assert_eq!(t.eval(0).unwrap_err().kind, ErrorKind::Cancelled);
}
