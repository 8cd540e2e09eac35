use starlark::ast::{Argument, AstExpr, AstLiteral, BinOp, Expr, Parameter};
use starlark::compiled::ExprCompiled;
use starlark::compiler::Compiler;
use starlark::errors::{Error, ErrorKind, Span};
use starlark::state::{Evaluator, Program};
use starlark::compiled::ExprCompiledValue;
use starlark::stdlib::{global_functions, GlobalsBuilder};
use starlark::value::{FrozenValue, Value};

const DEPTH: usize = 50;

fn at(node: Expr) -> AstExpr {
    AstExpr { span: Span { begin: 0, end: 0 }, node }
}

fn num(i: i32) -> AstExpr {
    at(Expr::Literal(AstLiteral::IntLiteral(i)))
}

fn text(s: &str) -> AstExpr {
    at(Expr::Literal(AstLiteral::StringLiteral(s.to_owned())))
}

fn name(s: &str) -> AstExpr {
    at(Expr::Identifier(s.to_owned()))
}

fn list(xs: Vec<AstExpr>) -> AstExpr {
    at(Expr::List(xs))
}

fn tuple(xs: Vec<AstExpr>) -> AstExpr {
    at(Expr::Tuple(xs))
}

fn dict(xs: Vec<(AstExpr, AstExpr)>) -> AstExpr {
    at(Expr::Dict(xs))
}

fn op(l: AstExpr, o: BinOp, r: AstExpr) -> AstExpr {
    at(Expr::Op(Box::new(l), o, Box::new(r)))
}

fn call(f: AstExpr, args: Vec<AstExpr>) -> AstExpr {
    at(Expr::Call(Box::new(f), args.into_iter().map(Argument::Positional).collect()))
}

fn call_with(f: AstExpr, args: Vec<Argument>) -> AstExpr {
    at(Expr::Call(Box::new(f), args))
}

fn method(receiver: AstExpr, m: &str, args: Vec<AstExpr>) -> AstExpr {
    let dot = at(Expr::Dot(Box::new(receiver), m.to_owned()));
    call(dot, args)
}

fn lambda(params: Vec<Parameter>, body: AstExpr) -> AstExpr {
    at(Expr::Lambda(params, Box::new(body)))
}

fn param(s: &str) -> Parameter {
    Parameter::Normal(s.to_owned())
}

fn if_else(c: AstExpr, t: AstExpr, f: AstExpr) -> AstExpr {
    at(Expr::If(Box::new(c), Box::new(t), Box::new(f)))
}

/// A module under test: variables that are defined first, then expressions to evaluate.
struct Session {
    ev: Evaluator,
    prog: Program,
    exprs: Vec<ExprCompiled>,
}

fn session(defs: Vec<(&str, AstExpr)>, exprs: Vec<AstExpr>) -> Session {
    let mut b = GlobalsBuilder::new();
    global_functions(&mut b);
    starlark::stdlib::filter(&mut b);
    starlark::stdlib::map(&mut b);
    starlark::stdlib::partial(&mut b);
    starlark::stdlib::debug(&mut b);
    starlark::stdlib::dedupe(&mut b);
    starlark::stdlib::print(&mut b);
    starlark::stdlib::json(&mut b);
    starlark::stdlib::abs(&mut b);
    starlark::stdlib::enumeration(&mut b);
    starlark::stdlib::methods(&mut b);
    let (mem, globals) = b.build();
    let names: Vec<String> = defs.iter().map(|d| d.0.to_owned()).collect();
    let mut compiler = Compiler::new(mem, globals, names.clone());
    let mut compiled_defs = Vec::new();
    for (_, e) in &defs {
        compiled_defs.push(compiler.expr(e).as_compiled(e.span));
    }
    let mut compiled = Vec::new();
    for e in &exprs {
        compiled.push(compiler.expr(e).as_compiled(e.span));
    }
    let (mem, prog) = compiler.finish();
    let mut ev = Evaluator::new(mem, names.len());
    ev.enter_module(prog.locals);
    for (i, c) in compiled_defs.iter().enumerate() {
        let v = ev.eval(&prog, c, DEPTH).expect("a definition evaluates");
        ev.set_slot_module(i, &names[i], v).expect("the slot exists");
    }
    Session { ev, prog, exprs: compiled }
}

impl Session {
    fn eval(&mut self, i: usize) -> Result<Value, Error> {
        self.ev.eval(&self.prog, &self.exprs[i], DEPTH)
    }

    fn repr(&mut self, i: usize) -> String {
        let v = self.eval(i).expect("the expression evaluates");
        self.ev.mem.to_repr(v).expect("the value has a representation")
    }
}

/// Evaluates each pair and checks that the two values are equal.
fn assert_eq_all(defs: Vec<(&str, AstExpr)>, pairs: Vec<(AstExpr, AstExpr)>) {
    let mut exprs = Vec::new();
    for (a, b) in pairs {
        exprs.push(a);
        exprs.push(b);
    }
    let n = exprs.len() / 2;
    let mut s = session(defs, exprs);
    for i in 0..n {
        let a = s.eval(2 * i).expect("the expected value evaluates");
        let b = s.eval(2 * i + 1).expect("the expression evaluates");
        let same = s.ev.mem.equals(a, b).expect("the values compare");
        let shown_a = s.ev.mem.to_repr(a).unwrap();
        let shown_b = s.ev.mem.to_repr(b).unwrap();
        assert!(same, "pair {}: expected {}, got {}", i, shown_a, shown_b);
    }
}

fn repr_of(e: AstExpr) -> String {
    session(vec![], vec![e]).repr(0)
}

fn error_of(e: AstExpr) -> Error {
    session(vec![], vec![e]).eval(0).expect_err("the expression fails")
}

#[test]
fn test_constants() {
    let mut s = session(
        vec![],
        vec![
            at(Expr::Not(Box::new(name("None")))),
            at(Expr::Not(Box::new(name("False")))),
            name("True"),
        ],
    );
    for i in 0..3 {
        let v = s.eval(i).unwrap();
        assert!(s.ev.mem.to_bool(v));
    }
}

#[test]
fn test_error_codes() {
    let e = error_of(call(name("chr"), vec![num(0x110000)]));
    assert!(e.to_string().contains("not a valid UTF-8"));
}

#[test]
fn test_hash() {
    assert_eq_all(
        vec![],
        vec![
            (num(0), call(name("hash"), vec![text("")])),
            (num(97), call(name("hash"), vec![text("a")])),
            (num(3105), call(name("hash"), vec![text("ab")])),
            (num(96354), call(name("hash"), vec![text("abc")])),
            (num(2987074), call(name("hash"), vec![text("abcd")])),
            (num(92599395), call(name("hash"), vec![text("abcde")])),
            (num(-1424385949), call(name("hash"), vec![text("abcdef")])),
            (call(name("hash"), vec![text("te")]), call(name("hash"), vec![text("te")])),
            (
                name("True"),
                op(
                    call(name("hash"), vec![text("te")]),
                    BinOp::NotEqual,
                    call(name("hash"), vec![text("st")]),
                ),
            ),
            (
                call(name("hash"), vec![text("test")]),
                call(name("hash"), vec![op(text("te"), BinOp::Add, text("st"))]),
            ),
        ],
    );
    let failing = vec![
        name("None"),
        name("True"),
        num(1),
        list(vec![]),
        dict(vec![]),
        call(name("range"), vec![num(1)]),
        tuple(vec![num(1), num(2)]),
        lambda(vec![], name("None")),
    ];
    for arg in failing {
        let e = error_of(call(name("hash"), vec![arg]));
        assert!(e.to_string().contains("doesn't match"), "{}", e.to_string());
        assert_eq!(e.kind, ErrorKind::WrongType);
    }
}

#[test]
fn test_send_sync() {
    fn is_send_sync<T: Send + Sync>() {}
    is_send_sync::<FrozenValue>();
}

#[test]
fn test_dedupe() {
    let a = || list(vec![num(1)]);
    assert_eq_all(
        vec![("a", a()), ("b", a())],
        vec![
            (
                list(vec![num(1), num(2), num(3)]),
                call(name("dedupe"), vec![list(vec![num(1), num(2), num(3)])]),
            ),
            (
                list(vec![num(1), num(2), num(3)]),
                call(name("dedupe"), vec![list(vec![num(1), num(2), num(3), num(2), num(1)])]),
            ),
            (
                list(vec![name("a"), name("b")]),
                call(name("dedupe"), vec![list(vec![name("a"), name("b"), name("a")])]),
            ),
        ],
    );
    // Dedupe goes by identity: the two equal lists both stay.
    let mut s = session(
        vec![("a", a()), ("b", a())],
        vec![call(
            name("len"),
            vec![call(name("dedupe"), vec![list(vec![name("a"), name("b"), name("a")])])],
        )],
    );
    assert_eq!(s.repr(0), "2");
}

#[test]
fn test_map() {
    let double = lambda(vec![param("x")], op(name("x"), BinOp::Add, name("x")));
    assert_eq_all(
        vec![("double", double)],
        vec![
            (list(vec![]), call(name("map"), vec![name("int"), list(vec![])])),
            (
                list(vec![num(1), num(2), num(3)]),
                call(name("map"), vec![name("int"), list(vec![text("1"), text("2"), text("3")])]),
            ),
            (
                list(vec![text("0"), text("1"), text("2")]),
                call(name("map"), vec![name("str"), call(name("range"), vec![num(3)])]),
            ),
            (
                list(vec![text("11"), num(8)]),
                call(name("map"), vec![name("double"), list(vec![text("1"), num(4)])]),
            ),
        ],
    );
}

#[test]
fn test_filter() {
    let contains_hello = lambda(
        vec![param("s")],
        if_else(op(text("hello"), BinOp::In, name("s")), name("True"), name("False")),
    );
    let positive = lambda(vec![param("i")], op(name("i"), BinOp::Greater, num(0)));
    assert_eq_all(
        vec![("contains_hello", contains_hello), ("positive", positive)],
        vec![
            (list(vec![]), call(name("filter"), vec![name("positive"), list(vec![])])),
            (
                list(vec![num(1), num(2), num(3)]),
                call(name("filter"), vec![name("positive"), list(vec![num(1), num(2), num(3)])]),
            ),
            (
                list(vec![]),
                call(name("filter"), vec![name("positive"), list(vec![num(-1), num(-2), num(-3)])]),
            ),
            (
                list(vec![num(1), num(2), num(3)]),
                call(
                    name("filter"),
                    vec![
                        name("positive"),
                        list(vec![num(-1), num(1), num(2), num(-2), num(-3), num(3)]),
                    ],
                ),
            ),
            (
                list(vec![text("hello world!")]),
                call(
                    name("filter"),
                    vec![name("contains_hello"), list(vec![text("hello world!"), text("goodbye")])],
                ),
            ),
        ],
    );
}

#[test]
fn test_partial() {
    // def sum(a, b, *args, **kwargs): return [(a, b) + args, kwargs]
    let sum = lambda(
        vec![
            param("a"),
            param("b"),
            Parameter::Args("args".to_owned()),
            Parameter::KWargs("kwargs".to_owned()),
        ],
        list(vec![
            op(tuple(vec![name("a"), name("b")]), BinOp::Add, name("args")),
            name("kwargs"),
        ]),
    );
    let expected = || {
        list(vec![
            tuple(vec![num(1), num(2), num(3)]),
            dict(vec![(text("other"), name("True")), (text("third"), name("None"))]),
        ])
    };
    let named = |n: &str, v: AstExpr| Argument::Named(n.to_owned(), v);
    let pos = Argument::Positional;
    assert_eq_all(
        vec![("sum", sum)],
        vec![
            // simple test
            (
                expected(),
                call_with(
                    call_with(
                        name("partial"),
                        vec![pos(name("sum")), pos(num(1)), named("other", name("True"))],
                    ),
                    vec![pos(num(2)), pos(num(3)), named("third", name("None"))],
                ),
            ),
            // passing *args **kwargs to partial
            (
                expected(),
                call_with(
                    call_with(
                        name("partial"),
                        vec![
                            pos(name("sum")),
                            Argument::Args(list(vec![num(1)])),
                            Argument::KWargs(dict(vec![(text("other"), name("True"))])),
                        ],
                    ),
                    vec![pos(num(2)), pos(num(3)), named("third", name("None"))],
                ),
            ),
            // passing *args **kwargs to returned func
            (
                expected(),
                call_with(
                    call_with(
                        name("partial"),
                        vec![pos(name("sum")), named("other", name("True"))],
                    ),
                    vec![
                        Argument::Args(list(vec![num(1), num(2), num(3)])),
                        Argument::KWargs(dict(vec![(text("third"), name("None"))])),
                    ],
                ),
            ),
            // no args to partial
            (
                expected(),
                call_with(
                    call_with(name("partial"), vec![pos(name("sum"))]),
                    vec![
                        pos(num(1)),
                        pos(num(2)),
                        pos(num(3)),
                        named("third", name("None")),
                        Argument::KWargs(dict(vec![(text("other"), name("True"))])),
                    ],
                ),
            ),
        ],
    );
}

#[test]
fn range_as_a_list() {
    assert_eq!(
        repr_of(call(name("list"), vec![call(name("range"), vec![num(10), num(3), num(-2)])])),
        "[10, 8, 6, 4]"
    );
    assert_eq!(
        repr_of(call(name("list"), vec![call(name("range"), vec![num(3), num(10), num(2)])])),
        "[3, 5, 7, 9]"
    );
    assert_eq!(repr_of(call(name("list"), vec![call(name("range"), vec![num(3)])])), "[0, 1, 2]");
    let e = error_of(call(name("range"), vec![num(1), num(5), num(0)]));
    assert_eq!(e.kind, ErrorKind::UserFail);
}

#[test]
fn chr_and_ord() {
    assert_eq!(repr_of(call(name("chr"), vec![num(65)])), "\"A\"");
    assert_eq!(repr_of(call(name("ord"), vec![text("\u{419}")])), "1049");
    assert_eq!(repr_of(call(name("chr"), vec![num(0x1F63F)])), "\"\u{1F63F}\"");
    assert_eq!(error_of(call(name("ord"), vec![text("ab")])).kind, ErrorKind::UserFail);
}

#[test]
fn enumeration_of_colors() {
    let colors = call(name("enum"), vec![text("Red"), text("Green"), text("Blue")]);
    let red = || call(name("Colors"), vec![text("Red")]);
    let dot = |e: AstExpr, a: &str| at(Expr::Dot(Box::new(e), a.to_owned()));
    assert_eq_all(
        vec![("Colors", colors)],
        vec![
            (num(0), dot(red(), "index")),
            (text("Red"), dot(red(), "value")),
            (
                red(),
                at(Expr::ArrayIndirection(Box::new(name("Colors")), Box::new(num(0)))),
            ),
            (text("Colors"), dot(name("Colors"), "type")),
            (num(3), call(name("len"), vec![name("Colors")])),
        ],
    );
    let e = error_of(call(name("enum"), vec![text("X"), text("X")]));
    assert_eq!(e.kind, ErrorKind::DuplicateEnumValue);
    let mut s = session(
        vec![("Colors", call(name("enum"), vec![text("Red")]))],
        vec![call(name("Colors"), vec![text("Pink")])],
    );
    assert_eq!(s.eval(0).unwrap_err().kind, ErrorKind::InvalidEnumElement);
}

#[test]
fn mutation_during_iteration_fails() {
    // map(lambda x: l.append(x), l) appends to the list that is iterated over.
    let grow = lambda(vec![param("x")], method(name("l"), "append", vec![name("x")]));
    let mut s = session(
        // A list literal of constants is a constant: `list` makes one that can change.
        vec![("l", call(name("list"), vec![tuple(vec![num(1), num(2)])])), ("grow", grow)],
        vec![
            call(name("map"), vec![name("grow"), name("l")]),
            name("l"),
            method(name("l"), "append", vec![num(3)]),
            name("l"),
        ],
    );
    assert_eq!(s.eval(0).unwrap_err().kind, ErrorKind::MutationDuringIteration);
    assert_eq!(s.repr(1), "[1, 2]");
    assert!(s.eval(2).is_ok());
    assert_eq!(s.repr(3), "[1, 2, 3]");
}

#[test]
fn constants_are_folded() {
    let mut b = GlobalsBuilder::new();
    global_functions(&mut b);
    let (mem, globals) = b.build();
    let mut c = Compiler::new(mem, globals, vec![]);
    let e = op(op(text("a"), BinOp::Add, text("b")), BinOp::Add, text("c"));
    match c.expr(&e) {
        ExprCompiledValue::Value(v) => {
            assert_eq!(c.mem.unpack_str(v.to_value()).unwrap(), "abc");
        }
        ExprCompiledValue::Compiled(_) => panic!("not folded"),
    }
    let neg = at(Expr::Minus(Box::new(at(Expr::Minus(Box::new(num(7)))))));
    assert!(matches!(c.expr(&neg), ExprCompiledValue::Value(FrozenValue::Int(7))));
    let t = tuple(vec![num(1), text("x")]);
    match c.expr(&t) {
        ExprCompiledValue::Value(v) => {
            assert_eq!(c.mem.to_repr(v.to_value()).unwrap(), "(1, \"x\")");
        }
        ExprCompiledValue::Compiled(_) => panic!("not folded"),
    }
    // A list of constants with an element, also a nested one.
    let l = list(vec![num(1), list(vec![text("x"), num(2)]), tuple(vec![])]);
    match c.expr(&l) {
        ExprCompiledValue::Value(v) => {
            assert_eq!(c.mem.to_repr(v.to_value()).unwrap(), "[1, [\"x\", 2], ()]");
        }
        ExprCompiledValue::Compiled(_) => panic!("not folded"),
    }
    // A dictionary of constants, in the order of its entries.
    let d = dict(vec![(text("b"), num(1)), (num(3), list(vec![num(4)])), (text("a"), text("z"))]);
    match c.expr(&d) {
        ExprCompiledValue::Value(v) => {
            assert_eq!(c.mem.to_repr(v.to_value()).unwrap(), "{\"b\": 1, 3: [4], \"a\": \"z\"}");
        }
        ExprCompiledValue::Compiled(_) => panic!("not folded"),
    }
    // Tuples of integers and strings are keys too.
    let d = dict(vec![
        (tuple(vec![num(1), text("a")]), num(1)),
        (tuple(vec![num(1), text("b")]), num(2)),
        (tuple(vec![]), num(3)),
    ]);
    match c.expr(&d) {
        ExprCompiledValue::Value(v) => {
            assert_eq!(
                c.mem.to_repr(v.to_value()).unwrap(),
                "{(1, \"a\"): 1, (1, \"b\"): 2, (): 3}"
            );
        }
        ExprCompiledValue::Compiled(_) => panic!("not folded"),
    }
    // A list is no key: the dictionary is evaluated, and fails then.
    assert!(matches!(
        c.expr(&dict(vec![(list(vec![num(1)]), num(1))])),
        ExprCompiledValue::Compiled(_)
    ));
    // Each literal is a constant of its own.
    let first = c.expr(&list(vec![num(1)])).as_value().unwrap();
    let second = c.expr(&list(vec![num(1)])).as_value().unwrap();
    assert!(!first.to_value().ptr_eq(second.to_value()));
    // An empty list or dictionary is made anew each time, and one with a variable is
    // evaluated.
    assert_eq!(c.expr(&list(vec![])).as_compiled(at(Expr::List(vec![])).span).node.name(), "list_empty");
    assert_eq!(c.expr(&dict(vec![])).as_compiled(at(Expr::List(vec![])).span).node.name(), "dict_empty");
    assert!(matches!(
        c.expr(&dict(vec![(text("a"), name("nowhere_else"))])),
        ExprCompiledValue::Compiled(_)
    ));
    // A name that is not known is compiled, and recorded.
    assert_eq!(c.errors.len(), 1);
    c.errors.clear();
    assert!(matches!(c.expr(&name("nowhere")), ExprCompiledValue::Compiled(_)));
    assert_eq!(c.errors.len(), 1);
    assert_eq!(c.errors[0].kind, ErrorKind::VariableNotFound);
}

#[test]
fn closures_capture_variables() {
    // (lambda x: lambda y: x + y)(1)(2) == 3
    let inner = lambda(vec![param("y")], op(name("x"), BinOp::Add, name("y")));
    let outer = lambda(vec![param("x")], inner);
    assert_eq!(repr_of(call(call(outer, vec![num(1)]), vec![num(2)])), "3");
}

#[test]
fn deep_recursion_overflows() {
    // f = lambda: f()
    let f = lambda(vec![], call(name("f"), vec![]));
    let mut s = session(vec![("f", f)], vec![call(name("f"), vec![])]);
    assert_eq!(s.eval(0).unwrap_err().kind, ErrorKind::StackOverflow);
}

#[test]
fn a_repeated_key_fails_when_evaluated() {
    // {"a": 1, "a": 2} compiles, and fails when it is evaluated.
    let twice = || dict(vec![(text("a"), num(1)), (text("a"), num(2))]);
    let mut b = GlobalsBuilder::new();
    global_functions(&mut b);
    let (mem, globals) = b.build();
    let mut c = Compiler::new(mem, globals, vec![]);
    assert!(matches!(c.expr(&twice()), ExprCompiledValue::Compiled(_)));
    assert_eq!(c.errors.len(), 0);
    let e = error_of(twice());
    assert_eq!(e.kind, ErrorKind::DuplicateDictionaryKey);
    assert!(e.message.contains("`a`"), "{}", e.message);
    // With values that are no constants too.
    let mut s = session(
        vec![("x", num(1))],
        vec![dict(vec![(text("a"), name("x")), (text("a"), name("x"))])],
    );
    let e = s.eval(0).unwrap_err();
    assert_eq!(e.kind, ErrorKind::DuplicateDictionaryKey);
    assert!(e.message.contains("`a`"), "{}", e.message);
}

#[test]
fn constant_lists_and_dictionaries_cannot_change() {
    let mut s = session(
        vec![("l", list(vec![num(1), num(2)])), ("e", list(vec![])), ("d", dict(vec![(num(1), num(2))]))],
        vec![
            method(name("l"), "append", vec![num(3)]),
            name("l"),
            method(name("e"), "append", vec![num(3)]),
            name("e"),
            call(name("len"), vec![name("d")]),
            at(Expr::ArrayIndirection(Box::new(name("d")), Box::new(num(1)))),
        ],
    );
    assert_eq!(s.eval(0).unwrap_err().kind, ErrorKind::CannotMutateImmutable);
    assert_eq!(s.repr(1), "[1, 2]");
    assert!(s.eval(2).is_ok());
    assert_eq!(s.repr(3), "[3]");
    assert_eq!(s.repr(4), "1");
    assert_eq!(s.repr(5), "2");
}

#[test]
fn errors_name_what_went_wrong() {
    let e = error_of(call(name("chr"), vec![num(0x110000)]));
    assert_eq!(e.kind, ErrorKind::UserFail);
    assert_eq!(e.message, "chr() parameter value is 0x110000 which is not a valid UTF-8 codepoint");
    let e = error_of(call(name("chr"), vec![num(-1)]));
    assert_eq!(e.message, "chr() parameter value is 0xffffffff which is not a valid UTF-8 codepoint");
    let e = error_of(call(name("hash"), vec![num(1)]));
    assert_eq!(e.kind, ErrorKind::WrongType);
    assert_eq!(e.message, "Type of parameter `a` doesn't match, expected `string`, actual `int`");
    let e = error_of(call(name("hash"), vec![list(vec![])]));
    assert_eq!(e.message, "Type of parameter `a` doesn't match, expected `string`, actual `list`");
    let e = error_of(call(name("enum"), vec![text("X"), text("Y"), text("X")]));
    assert_eq!(e.kind, ErrorKind::DuplicateEnumValue);
    assert_eq!(e.message, "enum values must all be distinct, but repeated `X`");
    let mut s = session(
        vec![("Colors", call(name("enum"), vec![text("Red"), text("Green"), text("Blue")]))],
        vec![call(name("Colors"), vec![text("Yellow")]), call(name("len"), vec![name("Colors")])],
    );
    let e = s.eval(0).unwrap_err();
    assert_eq!(e.kind, ErrorKind::InvalidEnumElement);
    assert_eq!(
        e.message,
        "Unknown enum element `Yellow`, given to `enum(\"Red\", \"Green\", \"Blue\")`"
    );
    assert_eq!(s.repr(1), "3");
    let e = error_of(dict(vec![(num(1), name("True")), (num(1), name("False"))]));
    assert_eq!(e.message, "Dictionary key repeated for `1`");
}

#[test]
fn errors_are_pinned_to_the_expression_that_failed() {
    let missing = AstExpr { span: Span { begin: 7, end: 14 }, node: Expr::Identifier("nowhere".to_owned()) };
    let whole = AstExpr {
        span: Span { begin: 3, end: 15 },
        node: Expr::Tuple(vec![num(1), missing]),
    };
    let e = error_of(whole);
    assert_eq!(e.kind, ErrorKind::VariableNotFound);
    assert_eq!(e.span, Some(Span { begin: 7, end: 14 }));
    // An error of the operation itself is pinned to the operation.
    let sum = AstExpr {
        span: Span { begin: 2, end: 9 },
        node: Expr::Op(Box::new(num(1)), BinOp::Add, Box::new(name("None"))),
    };
    assert_eq!(error_of(sum).span, Some(Span { begin: 2, end: 9 }));
    // An error in the body of a function is pinned there, not to the call.
    let inner = AstExpr { span: Span { begin: 20, end: 27 }, node: Expr::Identifier("nowhere".to_owned()) };
    let function = AstExpr { span: Span { begin: 10, end: 28 }, node: Expr::Lambda(vec![], Box::new(inner)) };
    let called = AstExpr {
        span: Span { begin: 9, end: 31 },
        node: Expr::Call(Box::new(function), vec![]),
    };
    assert_eq!(error_of(called).span, Some(Span { begin: 20, end: 27 }));
    // An error of a built-in is pinned to the call.
    let length = AstExpr {
        span: Span { begin: 4, end: 11 },
        node: Expr::Call(Box::new(name("abs")), vec![Argument::Positional(text("x"))]),
    };
    assert_eq!(error_of(length).span, Some(Span { begin: 4, end: 11 }));
}
