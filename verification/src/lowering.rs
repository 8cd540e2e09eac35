//! What the compiler makes of an expression: the content of compiled expressions, and the
//! compiled expression and the state of the compiler after each expression.
use vstd::prelude::*;
use crate::arith::BinaryOp;
use crate::ast::{
    chain_text, Argument, Assign, AstExpr, AstLiteral, BinOp, Clause, Expr, ForClause, Parameter,
};
use crate::compiled::{
    ArgsCompiled, AssignCompiled, CallArgs, ClauseCompiled, Comparison, DefCompiled, ExprCompiled,
    ExprCompiledValue, Node, ParameterCompiled,
};
use crate::errors::{EnvironmentError, Error, ErrorKind, Span};
use crate::eval::{thaw, thaw_pairs};
use crate::heap::{Entry, Store, Target};
use crate::object::Obj;
use crate::scope::{ScopeView, Slot};
use crate::state::Globals;
use crate::value::{FrozenValue, Value};

verus! {

/// The content of a compiled expression.
pub struct LExpr {
    pub span: Span,
    pub node: LNode,
}

/// The content of a [`Node`].
pub enum LNode {
    Value(FrozenValue),
    Local(usize, Seq<char>),
    Module(usize, Seq<char>),
    NotFound(Seq<char>),
    Tuple(Seq<LExpr>),
    ListStatic(Seq<FrozenValue>),
    List(Seq<LExpr>),
    DictStatic(Seq<(FrozenValue, FrozenValue)>),
    DictStaticKey(Seq<(FrozenValue, LExpr)>),
    Dict(Seq<(LExpr, LExpr)>),
    If(Box<LExpr>, Box<LExpr>, Box<LExpr>),
    Dot(Box<LExpr>, Seq<char>),
    CallMethod(Box<LExpr>, Seq<char>, LArgs),
    TypeOf(Box<LExpr>),
    Len(Box<LExpr>),
    Call(Box<LExpr>, LArgs),
    Index(Box<LExpr>, Box<LExpr>),
    Slice(Box<LExpr>, Option<Box<LExpr>>, Option<Box<LExpr>>, Option<Box<LExpr>>),
    Not(Box<LExpr>),
    Minus(Box<LExpr>),
    Plus(Box<LExpr>),
    BitNot(Box<LExpr>),
    Or(Box<LExpr>, Box<LExpr>),
    And(Box<LExpr>, Box<LExpr>),
    Equals(Box<LExpr>, Box<LExpr>, bool),
    Compare(Box<LExpr>, Box<LExpr>, Comparison),
    In(Box<LExpr>, Box<LExpr>, bool),
    Binary(Box<LExpr>, Box<LExpr>, BinaryOp),
    ListComp(Box<LExpr>, Seq<LClause>),
    DictComp(Box<LExpr>, Box<LExpr>, Seq<LClause>),
    Def(usize, Seq<LExpr>),
}

/// The content of [`AssignCompiled`].
pub enum LAssign {
    Slot(usize, Seq<char>),
    Tuple(Seq<LAssign>),
}

/// The content of [`ClauseCompiled`].
pub enum LClause {
    For(LAssign, LExpr),
    If(LExpr),
}

/// The content of [`ArgsCompiled`].
pub struct LGeneral {
    pub pos_named: Seq<LExpr>,
    pub names: Seq<(Seq<char>, FrozenValue)>,
    pub args: Option<Box<LExpr>>,
    pub kwargs: Option<Box<LExpr>>,
}

/// The content of [`CallArgs`].
pub enum LArgs {
    Args0,
    Args1(Box<LExpr>),
    Args2(Box<LExpr>, Box<LExpr>),
    Args(LGeneral),
}

/// The content of [`ExprCompiledValue`].
pub enum LValue {
    Value(FrozenValue),
    Compiled(LExpr),
}

/// The content of [`ParameterCompiled`].
pub enum LParam {
    Normal(Seq<char>),
    WithDefaultValue(Seq<char>),
    NoArgs,
    Args(Seq<char>),
    KWargs(Seq<char>),
}

/// The content of [`DefCompiled`].
pub struct LDef {
    pub name: Seq<char>,
    pub params: Seq<LParam>,
    pub body: LExpr,
    pub slots: usize,
    pub parent: Seq<(usize, usize)>,
}

/// An expression that stands for nothing: what is outside a sequence.
pub open spec fn nothing() -> LExpr {
    LExpr { span: Span { begin: 0, end: 0 }, node: LNode::NotFound(Seq::empty()) }
}

/// The content of the compiled expression `e`.
pub open spec fn lowered(e: ExprCompiled) -> LExpr
    decreases e,
{
    LExpr {
        span: e.span,
        node: match e.node {
            Node::Value(v) => LNode::Value(v),
            Node::Local(i, n) => LNode::Local(i, n@),
            Node::Module(i, n) => LNode::Module(i, n@),
            Node::NotFound(n) => LNode::NotFound(n@),
            Node::Tuple(xs) => LNode::Tuple(lowered_all(xs)),
            Node::ListStatic(vs) => LNode::ListStatic(vs@),
            Node::List(xs) => LNode::List(lowered_all(xs)),
            Node::DictStatic(kvs) => LNode::DictStatic(kvs@),
            Node::DictStaticKey(kvs) => LNode::DictStaticKey(
                Seq::new(
                    kvs.len() as nat,
                    |i: int|
                        if 0 <= i < kvs.len() {
                            (kvs@[i].0, lowered(kvs@[i].1))
                        } else {
                            (FrozenValue::Nil, nothing())
                        },
                ),
            ),
            Node::Dict(kvs) => LNode::Dict(
                Seq::new(
                    kvs.len() as nat,
                    |i: int|
                        if 0 <= i < kvs.len() {
                            (lowered(kvs@[i].0), lowered(kvs@[i].1))
                        } else {
                            (nothing(), nothing())
                        },
                ),
            ),
            Node::If(c, t, f) => LNode::If(
                Box::new(lowered(*c)),
                Box::new(lowered(*t)),
                Box::new(lowered(*f)),
            ),
            Node::Dot(l, n) => LNode::Dot(Box::new(lowered(*l)), n@),
            Node::CallMethod(x, n, args) => LNode::CallMethod(
                Box::new(lowered(*x)),
                n@,
                lowered_args(args),
            ),
            Node::TypeOf(x) => LNode::TypeOf(Box::new(lowered(*x))),
            Node::Len(x) => LNode::Len(Box::new(lowered(*x))),
            Node::Call(l, args) => LNode::Call(Box::new(lowered(*l)), lowered_args(args)),
            Node::Index(a, i) => LNode::Index(Box::new(lowered(*a)), Box::new(lowered(*i))),
            Node::Slice(c, a, b, s) => LNode::Slice(
                Box::new(lowered(*c)),
                lowered_opt(a),
                lowered_opt(b),
                lowered_opt(s),
            ),
            Node::Not(x) => LNode::Not(Box::new(lowered(*x))),
            Node::Minus(x) => LNode::Minus(Box::new(lowered(*x))),
            Node::Plus(x) => LNode::Plus(Box::new(lowered(*x))),
            Node::BitNot(x) => LNode::BitNot(Box::new(lowered(*x))),
            Node::Or(l, r) => LNode::Or(Box::new(lowered(*l)), Box::new(lowered(*r))),
            Node::And(l, r) => LNode::And(Box::new(lowered(*l)), Box::new(lowered(*r))),
            Node::Equals(l, r, n) => LNode::Equals(
                Box::new(lowered(*l)),
                Box::new(lowered(*r)),
                n,
            ),
            Node::Compare(l, r, c) => LNode::Compare(
                Box::new(lowered(*l)),
                Box::new(lowered(*r)),
                c,
            ),
            Node::In(l, r, n) => LNode::In(Box::new(lowered(*l)), Box::new(lowered(*r)), n),
            Node::Binary(l, r, op) => LNode::Binary(
                Box::new(lowered(*l)),
                Box::new(lowered(*r)),
                op,
            ),
            Node::ListComp(x, cs) => LNode::ListComp(Box::new(lowered(*x)), lowered_clauses(cs)),
            Node::DictComp(k, v, cs) => LNode::DictComp(
                Box::new(lowered(*k)),
                Box::new(lowered(*v)),
                lowered_clauses(cs),
            ),
            Node::Def(i, defaults) => LNode::Def(i, lowered_all(defaults)),
        },
    }
}

/// The content of a compiled target of an assignment.
pub open spec fn lowered_assign(a: AssignCompiled) -> LAssign
    decreases a,
{
    match a {
        AssignCompiled::Slot(i, n) => LAssign::Slot(i, n@),
        AssignCompiled::Tuple(xs) => LAssign::Tuple(
            Seq::new(
                xs.len() as nat,
                |i: int|
                    if 0 <= i < xs.len() {
                        lowered_assign(xs@[i])
                    } else {
                        LAssign::Tuple(Seq::empty())
                    },
            ),
        ),
    }
}

/// The content of a compiled clause.
pub open spec fn lowered_clause(c: ClauseCompiled) -> LClause
    decreases c,
{
    match c {
        ClauseCompiled::For(var, over) => LClause::For(lowered_assign(var), lowered(over)),
        ClauseCompiled::If(x) => LClause::If(lowered(x)),
    }
}

/// The contents of compiled clauses.
pub open spec fn lowered_clauses(cs: Vec<ClauseCompiled>) -> Seq<LClause>
    decreases cs,
{
    Seq::new(
        cs.len() as nat,
        |i: int|
            if 0 <= i < cs.len() {
                lowered_clause(cs@[i])
            } else {
                LClause::If(nothing())
            },
    )
}

/// The contents of the compiled expressions `xs`.
pub open spec fn lowered_all(xs: Vec<ExprCompiled>) -> Seq<LExpr>
    decreases xs,
{
    Seq::new(
        xs.len() as nat,
        |i: int|
            if 0 <= i < xs.len() {
                lowered(xs@[i])
            } else {
                nothing()
            },
    )
}

/// The content of a compiled expression that may be absent.
pub open spec fn lowered_opt(x: Option<Box<ExprCompiled>>) -> Option<Box<LExpr>>
    decreases x,
{
    match x {
        Some(e) => Some(Box::new(lowered(*e))),
        None => None,
    }
}

/// The names of named arguments.
pub open spec fn lowered_names(names: Seq<(String, FrozenValue)>) -> Seq<(Seq<char>, FrozenValue)> {
    Seq::new(names.len(), |i: int| (names[i].0@, names[i].1))
}

/// The content of the general form of arguments.
pub open spec fn lowered_general(g: ArgsCompiled) -> LGeneral
    decreases g,
{
    LGeneral {
        pos_named: lowered_all(g.pos_named),
        names: lowered_names(g.names@),
        args: lowered_opt(g.args),
        kwargs: lowered_opt(g.kwargs),
    }
}

/// The content of the arguments of a call.
pub open spec fn lowered_args(args: CallArgs) -> LArgs
    decreases args,
{
    match args {
        CallArgs::Args0 => LArgs::Args0,
        CallArgs::Args1(a) => LArgs::Args1(Box::new(lowered(*a))),
        CallArgs::Args2(a, b) => LArgs::Args2(Box::new(lowered(*a)), Box::new(lowered(*b))),
        CallArgs::Args(g) => LArgs::Args(lowered_general(g)),
    }
}

/// The content of the result of compiling an expression.
pub open spec fn lowered_value(v: ExprCompiledValue) -> LValue {
    match v {
        ExprCompiledValue::Value(f) => LValue::Value(f),
        ExprCompiledValue::Compiled(c) => LValue::Compiled(lowered(c)),
    }
}

/// The content of a compiled parameter.
pub open spec fn lowered_param(p: ParameterCompiled) -> LParam {
    match p {
        ParameterCompiled::Normal(n) => LParam::Normal(n@),
        ParameterCompiled::WithDefaultValue(n) => LParam::WithDefaultValue(n@),
        ParameterCompiled::NoArgs => LParam::NoArgs,
        ParameterCompiled::Args(n) => LParam::Args(n@),
        ParameterCompiled::KWargs(n) => LParam::KWargs(n@),
    }
}

/// The content of a compiled function.
pub open spec fn lowered_def(d: DefCompiled) -> LDef {
    LDef {
        name: d.name@,
        params: Seq::new(d.params@.len(), |i: int| lowered_param(d.params@[i])),
        body: lowered(d.body),
        slots: d.slots,
        parent: d.parent@,
    }
}

impl LValue {
    /// This as a node to evaluate, at `span` if it is a constant.
    pub open spec fn as_compiled(self, span: Span) -> LExpr {
        match self {
            LValue::Value(v) => LExpr { span, node: LNode::Value(v) },
            LValue::Compiled(c) => c,
        }
    }
}

/// The constants of `vs`, if all of them are constants.
pub open spec fn all_constants(vs: Seq<LValue>) -> Option<Seq<FrozenValue>> {
    if forall|i: int| 0 <= i < vs.len() ==> (#[trigger] vs[i]) is Value {
        Some(Seq::new(vs.len(), |i: int| vs[i]->Value_0))
    } else {
        None
    }
}

/// The results `vs` as nodes to evaluate.
pub open spec fn as_nodes(vs: Seq<LValue>, span: Span) -> Seq<LExpr> {
    Seq::new(vs.len(), |i: int| vs[i].as_compiled(span))
}

/// What the compiler has recorded of an error.
pub struct Recorded {
    pub kind: ErrorKind,
    pub message: Seq<char>,
    pub span: Option<Span>,
}

/// The record of the error for the name `name`, which was not found at `span`.
pub open spec fn not_found(name: Seq<char>, span: Span) -> Recorded {
    Recorded {
        kind: ErrorKind::VariableNotFound,
        message: crate::errors::framed("Variable `"@, name, "` not found"@),
        span: Some(span),
    }
}

/// The general arguments with the shape made for them, if there is one: calls with up to
/// two positional arguments and nothing else.
pub open spec fn specialised(g: LGeneral) -> LArgs {
    if g.names.len() == 0 && g.args is None && g.kwargs is None && g.pos_named.len() <= 2 {
        if g.pos_named.len() == 0 {
            LArgs::Args0
        } else if g.pos_named.len() == 1 {
            LArgs::Args1(Box::new(g.pos_named[0]))
        } else {
            LArgs::Args2(Box::new(g.pos_named[0]), Box::new(g.pos_named[1]))
        }
    } else {
        LArgs::Args(g)
    }
}

/// Are the arguments one positional argument and nothing else?
pub open spec fn one_positional(g: LGeneral) -> bool {
    g.pos_named.len() == 1 && g.names.len() == 0 && g.args is None && g.kwargs is None
}

/// Is `v` a constant integer that has a negation?
pub open spec fn negatable(v: LValue) -> bool {
    v is Value && v->Value_0 is Int && v->Value_0->Int_0 != i32::MIN
}

/// The negation of the operand `v`: a constant, if `v` is a constant integer that has one.
pub open spec fn negation(v: LValue, at: Span, span: Span) -> LValue {
    if negatable(v) {
        LValue::Value(FrozenValue::Int((-v->Value_0->Int_0) as i32))
    } else {
        LValue::Compiled(LExpr { span, node: LNode::Minus(Box::new(v.as_compiled(at))) })
    }
}

/// `+` of the operand `v`: the constant itself, if `v` is a constant integer.
pub open spec fn affirmation(v: LValue, at: Span, span: Span) -> LValue {
    if v is Value && v->Value_0 is Int {
        v
    } else {
        LValue::Compiled(LExpr { span, node: LNode::Plus(Box::new(v.as_compiled(at))) })
    }
}

/// The node for a call of the callee `l`, which is no method, with the arguments `g`.
pub open spec fn plain_call_node(
    l: LValue,
    g: LGeneral,
    fn_type: Option<FrozenValue>,
    fn_len: Option<FrozenValue>,
    at: Span,
) -> LNode {
    if l is Value && Some(l->Value_0) == fn_type && one_positional(g) {
        LNode::TypeOf(Box::new(g.pos_named[0]))
    } else if l is Value && Some(l->Value_0) == fn_len && one_positional(g) {
        LNode::Len(Box::new(g.pos_named[0]))
    } else {
        LNode::Call(Box::new(l.as_compiled(at)), specialised(g))
    }
}

/// The operator of the compiled tree for a binary operator that computes a value by
/// arithmetic on its operands; none for the logical operators, the comparisons and the
/// membership tests, which have nodes of their own.
pub open spec fn arithmetic_op(op: BinOp) -> Option<BinaryOp> {
    match op {
        BinOp::Subtract => Some(BinaryOp::Subtract),
        BinOp::Add => Some(BinaryOp::Add),
        BinOp::Multiply => Some(BinaryOp::Multiply),
        BinOp::Percent => Some(BinaryOp::Percent),
        BinOp::FloorDivide => Some(BinaryOp::FloorDivide),
        BinOp::BitAnd => Some(BinaryOp::BitAnd),
        BinOp::BitOr => Some(BinaryOp::BitOr),
        BinOp::BitXor => Some(BinaryOp::BitXor),
        BinOp::LeftShift => Some(BinaryOp::LeftShift),
        BinOp::RightShift => Some(BinaryOp::RightShift),
        _ => None,
    }
}

/// The node for a binary operator on two compiled operands.
pub open spec fn binary_node(op: BinOp, l: LExpr, r: LExpr) -> LNode {
    let l = Box::new(l);
    let r = Box::new(r);
    match op {
        BinOp::Or => LNode::Or(l, r),
        BinOp::And => LNode::And(l, r),
        BinOp::Equal => LNode::Equals(l, r, false),
        BinOp::NotEqual => LNode::Equals(l, r, true),
        BinOp::Less => LNode::Compare(l, r, Comparison::Less),
        BinOp::Greater => LNode::Compare(l, r, Comparison::Greater),
        BinOp::LessOrEqual => LNode::Compare(l, r, Comparison::LessOrEqual),
        BinOp::GreaterOrEqual => LNode::Compare(l, r, Comparison::GreaterOrEqual),
        BinOp::In => LNode::In(l, r, false),
        BinOp::NotIn => LNode::In(l, r, true),
        BinOp::Subtract => LNode::Binary(l, r, BinaryOp::Subtract),
        BinOp::Add => LNode::Binary(l, r, BinaryOp::Add),
        BinOp::Multiply => LNode::Binary(l, r, BinaryOp::Multiply),
        BinOp::Percent => LNode::Binary(l, r, BinaryOp::Percent),
        BinOp::FloorDivide => LNode::Binary(l, r, BinaryOp::FloorDivide),
        BinOp::BitAnd => LNode::Binary(l, r, BinaryOp::BitAnd),
        BinOp::BitOr => LNode::Binary(l, r, BinaryOp::BitOr),
        BinOp::BitXor => LNode::Binary(l, r, BinaryOp::BitXor),
        BinOp::LeftShift => LNode::Binary(l, r, BinaryOp::LeftShift),
        BinOp::RightShift => LNode::Binary(l, r, BinaryOp::RightShift),
    }
}

impl Store {
    /// Can each of the constants `ks` be a key of a dictionary?
    pub open spec fn all_hashable(self, ks: Seq<FrozenValue>) -> bool {
        forall|i: int| 0 <= i < ks.len() ==> self.get_hash((#[trigger] ks[i]).to_value_spec()) is Ok
    }

    /// Are no two of the constants `ks[i..]` equal to each other, or to a key of `seen`?
    pub open spec fn distinct_from(self, ks: Seq<FrozenValue>, i: int, seen: Seq<(Value, Value)>) -> bool
        decreases ks.len() - i,
    {
        if i < 0 || i >= ks.len() {
            true
        } else {
            match self.dict_insert(seen, ks[i].to_value_spec(), Value::Nil) {
                Ok((next, false)) => self.distinct_from(ks, i + 1, next),
                _ => false,
            }
        }
    }
}

/// The scope after the variables of the target `a` are hidden.
pub open spec fn forget_assign(scope: ScopeView, a: LAssign) -> ScopeView
    decreases a,
{
    match a {
        LAssign::Slot(i, _) => scope.forget(i),
        LAssign::Tuple(ts) => forget_assigns(scope, ts, 0),
    }
}

/// The scope after the variables of the targets `ts[i..]` are hidden.
pub open spec fn forget_assigns(scope: ScopeView, ts: Seq<LAssign>, i: int) -> ScopeView
    decreases ts, ts.len() - i,
{
    if i < 0 || i >= ts.len() {
        scope
    } else {
        forget_assigns(forget_assign(scope, ts[i]), ts, i + 1)
    }
}

/// The state of a compiler.
pub struct CState {
    pub store: Store,
    pub scope: ScopeView,
    pub globals: Globals,
    pub fn_type: Option<FrozenValue>,
    pub fn_len: Option<FrozenValue>,
    pub errors: Seq<Recorded>,
    pub code: Seq<LDef>,
}

/// The parameters of a function on their way through the compiler.
pub struct LParams {
    /// The names of the parameters that take slots.
    pub names: Seq<Seq<char>>,
    pub params: Seq<LParam>,
    pub defaults: Seq<LExpr>,
}

impl CState {
    /// The state with a new entry on the frozen heap, and the constant that points to it.
    pub open spec fn constant(self, e: Entry) -> (CState, FrozenValue) {
        (
            CState { store: self.store.push_frozen(e), ..self },
            FrozenValue::Ptr(self.store.frozen.len() as usize),
        )
    }

    /// The state and the result after compiling `e`.
    pub open spec fn lower(self, e: AstExpr) -> (CState, LValue)
        decreases e, 1nat,
    {
        match e.node {
            Expr::Identifier(_) | Expr::Literal(_) => self.lower_leaf(e),
            Expr::Lambda(_, _) => self.lower_function(e),
            Expr::Tuple(_) | Expr::List(_) => self.lower_sequence(e),
            Expr::Dict(_) => self.lower_dict(e),
            Expr::If(_, _, _) | Expr::Not(_) | Expr::BitNot(_) | Expr::Minus(_) | Expr::Plus(_) => self.lower_unary(
                e,
            ),
            Expr::Dot(_, _) | Expr::ArrayIndirection(_, _) | Expr::Slice(_, _, _, _) => self.lower_access(
                e,
            ),
            Expr::Call(_, _) => self.lower_call(e),
            Expr::Op(_, _, _) => self.lower_op(e),
            Expr::ListComprehension(_, _, _) | Expr::DictComprehension(_, _, _) => self.lower_comprehension(
                e,
            ),
        }
    }

    /// The state and the target after the names of `a` are given new slots of the
    /// innermost function, in order.
    pub open spec fn lower_assign(self, a: Assign) -> (CState, LAssign)
        decreases a,
    {
        match a {
            Assign::Identifier(n) => {
                let (scope, slot) = self.scope.add_local(n@);
                (CState { scope, ..self }, LAssign::Slot(slot, n@))
            },
            Assign::Tuple(xs) => {
                let (c, ts) = self.lower_assigns(xs, 0, Seq::empty());
                (c, LAssign::Tuple(ts))
            },
        }
    }

    /// The state and the targets after the names of `xs[i..]` are given new slots.
    pub open spec fn lower_assigns(self, xs: Vec<Assign>, i: int, acc: Seq<LAssign>) -> (
        CState,
        Seq<LAssign>,
    )
        decreases xs, xs.len() - i,
    {
        if i < 0 || i >= xs.len() {
            (self, acc)
        } else {
            let (c, t) = self.lower_assign(xs@[i]);
            c.lower_assigns(xs, i + 1, acc.push(t))
        }
    }

    /// The state and the clause after compiling a `for`: what it ranges over is compiled
    /// before its variables come into scope.
    pub open spec fn lower_for(self, f: ForClause) -> (CState, LClause)
        decreases f, 3nat,
    {
        let (c1, over) = self.lower_node(f.over);
        let (c2, var) = c1.lower_assign(f.var);
        (c2, LClause::For(var, over))
    }

    /// The state and the clauses after compiling `clauses[i..]` in order, after `acc`.
    pub open spec fn lower_clauses(self, clauses: Vec<Clause>, i: int, acc: Seq<LClause>) -> (
        CState,
        Seq<LClause>,
    )
        decreases clauses, clauses.len() - i,
    {
        if i < 0 || i >= clauses.len() {
            (self, acc)
        } else {
            match clauses@[i] {
                Clause::For(f) => {
                    let (c, clause) = self.lower_for(f);
                    c.lower_clauses(clauses, i + 1, acc.push(clause))
                },
                Clause::If(x) => {
                    let (c, n) = self.lower_node(x);
                    c.lower_clauses(clauses, i + 1, acc.push(LClause::If(n)))
                },
            }
        }
    }

    /// The state after the variables of the clauses `cs[i..]` are hidden.
    pub open spec fn forget_clauses(self, cs: Seq<LClause>, i: int) -> CState
        decreases cs.len() - i,
    {
        if i < 0 || i >= cs.len() {
            self
        } else {
            match cs[i] {
                LClause::For(var, _) => CState {
                    scope: forget_assign(self.scope, var),
                    ..self
                }.forget_clauses(cs, i + 1),
                LClause::If(_) => self.forget_clauses(cs, i + 1),
            }
        }
    }

    /// A comprehension becomes its node: the clauses are compiled in order, each `for`
    /// bringing its variables into scope in new slots of the innermost function, then the
    /// element. After the comprehension its variables are hidden.
    pub open spec fn lower_comprehension(self, e: AstExpr) -> (CState, LValue)
        decreases e, 0nat,
    {
        match e.node {
            Expr::ListComprehension(x, first, clauses) => {
                let (c1, head) = self.lower_for(*first);
                let (c2, cs) = c1.lower_clauses(clauses, 0, seq![head]);
                let (c3, body) = c2.lower_node(*x);
                (
                    c3.forget_clauses(cs, 0),
                    LValue::Compiled(
                        LExpr { span: e.span, node: LNode::ListComp(Box::new(body), cs) },
                    ),
                )
            },
            Expr::DictComprehension(kv, first, clauses) => {
                let (c1, head) = self.lower_for(*first);
                let (c2, cs) = c1.lower_clauses(clauses, 0, seq![head]);
                let (c3, k) = c2.lower_node(kv.0);
                let (c4, v) = c3.lower_node(kv.1);
                (
                    c4.forget_clauses(cs, 0),
                    LValue::Compiled(
                        LExpr {
                            span: e.span,
                            node: LNode::DictComp(Box::new(k), Box::new(v), cs),
                        },
                    ),
                )
            },
            _ => (self, LValue::Compiled(nothing())),
        }
    }

    /// As [`CState::lower`], with a constant as the node that yields it.
    pub open spec fn lower_node(self, e: AstExpr) -> (CState, LExpr)
        decreases e, 2nat,
    {
        let (c, v) = self.lower(e);
        (c, v.as_compiled(e.span))
    }

    /// A name becomes its slot, the global of that name, or the node that fails, with the
    /// error recorded. A literal becomes its constant: a string goes to the frozen heap.
    pub open spec fn lower_leaf(self, e: AstExpr) -> (CState, LValue) {
        match e.node {
            Expr::Identifier(name) => {
                let (scope, slot) = self.scope.get_name(name@);
                let c = CState { scope, ..self };
                match slot {
                    Some(Slot::Local(i)) => (
                        c,
                        LValue::Compiled(LExpr { span: e.span, node: LNode::Local(i, name@) }),
                    ),
                    Some(Slot::Module(i)) => (
                        c,
                        LValue::Compiled(LExpr { span: e.span, node: LNode::Module(i, name@) }),
                    ),
                    None => match self.globals.get_frozen_spec(name@) {
                        Some(v) => (c, LValue::Value(v)),
                        None => (
                            CState { errors: self.errors.push(not_found(name@, e.span)), ..c },
                            LValue::Compiled(
                                LExpr { span: e.span, node: LNode::NotFound(name@) },
                            ),
                        ),
                    },
                }
            },
            Expr::Literal(AstLiteral::IntLiteral(i)) => (self, LValue::Value(FrozenValue::Int(i))),
            Expr::Literal(AstLiteral::StringLiteral(s)) => {
                let (c, v) = self.constant(Entry::Str(s@));
                (c, LValue::Value(v))
            },
            _ => (self, LValue::Compiled(nothing())),
        }
    }

    /// The state and the results after compiling `xs[i..]` in order, after `acc`.
    pub open spec fn lower_all(self, xs: Vec<AstExpr>, i: int, acc: Seq<LValue>) -> (
        CState,
        Seq<LValue>,
    )
        decreases xs, xs.len() - i,
    {
        if i < 0 || i >= xs.len() {
            (self, acc)
        } else {
            let (c, v) = self.lower(xs@[i]);
            c.lower_all(xs, i + 1, acc.push(v))
        }
    }

    /// A tuple of constants becomes a constant tuple on the frozen heap, and a list of
    /// constants that has an element a constant list. An empty list becomes the node that
    /// makes a new list, any other the node that evaluates the elements.
    pub open spec fn lower_sequence(self, e: AstExpr) -> (CState, LValue)
        decreases e, 0nat,
    {
        match e.node {
            Expr::Tuple(xs) => {
                let (c, vs) = self.lower_all(xs, 0, Seq::empty());
                match all_constants(vs) {
                    Some(content) => {
                        let (c2, v) = c.constant(Entry::Simple(Obj::Tuple(thaw(content))));
                        (c2, LValue::Value(v))
                    },
                    None => (
                        c,
                        LValue::Compiled(
                            LExpr { span: e.span, node: LNode::Tuple(as_nodes(vs, e.span)) },
                        ),
                    ),
                }
            },
            Expr::List(xs) => {
                let (c, vs) = self.lower_all(xs, 0, Seq::empty());
                match all_constants(vs) {
                    Some(content) => if content.len() > 0 {
                        let (c2, v) = c.constant(Entry::Simple(Obj::List(thaw(content))));
                        (c2, LValue::Value(v))
                    } else {
                        (
                            c,
                            LValue::Compiled(
                                LExpr { span: e.span, node: LNode::ListStatic(content) },
                            ),
                        )
                    },
                    None => (
                        c,
                        LValue::Compiled(
                            LExpr { span: e.span, node: LNode::List(as_nodes(vs, e.span)) },
                        ),
                    ),
                }
            },
            _ => (self, LValue::Compiled(nothing())),
        }
    }

    /// The state and the results after compiling the entries `xs[i..]`, each key before its
    /// value.
    pub open spec fn lower_pairs(
        self,
        xs: Vec<(AstExpr, AstExpr)>,
        i: int,
        keys: Seq<LValue>,
        values: Seq<LValue>,
    ) -> (CState, Seq<LValue>, Seq<LValue>)
        decreases xs, xs.len() - i,
    {
        if i < 0 || i >= xs.len() {
            (self, keys, values)
        } else {
            let (c1, k) = self.lower(xs@[i].0);
            let (c2, v) = c1.lower(xs@[i].1);
            c2.lower_pairs(xs, i + 1, keys.push(k), values.push(v))
        }
    }

    /// The state and the result for a dictionary, from the results of its keys and of its
    /// values. Constant keys that can be hashed come with the node ready. If no key comes
    /// twice and the values are constants too, a dictionary with an entry becomes a
    /// constant on the frozen heap, and an empty one the node that makes a new dictionary.
    /// Any other becomes the node that evaluates keys and values: it fails, when evaluated,
    /// on a key that comes twice.
    pub open spec fn dict_value(self, keys: Seq<LValue>, values: Seq<LValue>, span: Span) -> (
        CState,
        LValue,
    ) {
        let general = LNode::Dict(
            Seq::new(keys.len(), |i: int| (keys[i].as_compiled(span), values[i].as_compiled(span))),
        );
        match all_constants(keys) {
            Some(ks) if self.store.all_hashable(ks) => match all_constants(values) {
                Some(vs) => if self.store.distinct_from(ks, 0, Seq::empty()) {
                    let pairs = Seq::new(ks.len(), |i: int| (ks[i], vs[i]));
                    if ks.len() > 0 {
                        let (c, v) = self.constant(Entry::Simple(Obj::Dict(thaw_pairs(pairs))));
                        (c, LValue::Value(v))
                    } else {
                        (self, LValue::Compiled(LExpr { span, node: LNode::DictStatic(pairs) }))
                    }
                } else {
                    (self, LValue::Compiled(LExpr { span, node: general }))
                },
                None => (
                    self,
                    LValue::Compiled(
                        LExpr {
                            span,
                            node: LNode::DictStaticKey(
                                Seq::new(ks.len(), |i: int| (ks[i], values[i].as_compiled(span))),
                            ),
                        },
                    ),
                ),
            },
            _ => (self, LValue::Compiled(LExpr { span, node: general })),
        }
    }

    /// A dictionary: its keys and values in order, each key before its value, then
    /// [`CState::dict_value`].
    pub open spec fn lower_dict(self, e: AstExpr) -> (CState, LValue)
        decreases e, 0nat,
    {
        match e.node {
            Expr::Dict(xs) => {
                let (c, keys, values) = self.lower_pairs(xs, 0, Seq::empty(), Seq::empty());
                c.dict_value(keys, values, e.span)
            },
            _ => (self, LValue::Compiled(nothing())),
        }
    }

    /// A conditional and `not` become their nodes. The negation of a constant integer
    /// that has one, and `+` of a constant integer, become constants.
    pub open spec fn lower_unary(self, e: AstExpr) -> (CState, LValue)
        decreases e, 0nat,
    {
        match e.node {
            Expr::If(cond, t, f) => {
                let (c1, cn) = self.lower_node(*cond);
                let (c2, tn) = c1.lower_node(*t);
                let (c3, fn_) = c2.lower_node(*f);
                (
                    c3,
                    LValue::Compiled(
                        LExpr {
                            span: e.span,
                            node: LNode::If(Box::new(cn), Box::new(tn), Box::new(fn_)),
                        },
                    ),
                )
            },
            Expr::Not(x) => {
                let (c, n) = self.lower_node(*x);
                (c, LValue::Compiled(LExpr { span: e.span, node: LNode::Not(Box::new(n)) }))
            },
            Expr::BitNot(x) => {
                let (c, n) = self.lower_node(*x);
                (c, LValue::Compiled(LExpr { span: e.span, node: LNode::BitNot(Box::new(n)) }))
            },
            Expr::Minus(x) => {
                let (c, v) = self.lower(*x);
                (c, negation(v, x.span, e.span))
            },
            Expr::Plus(x) => {
                let (c, v) = self.lower(*x);
                (c, affirmation(v, x.span, e.span))
            },
            _ => (self, LValue::Compiled(nothing())),
        }
    }

    /// The state and the node after compiling an expression that may be absent.
    pub open spec fn lower_opt(self, x: Option<Box<AstExpr>>) -> (CState, Option<Box<LExpr>>)
        decreases x, 3nat,
    {
        match x {
            Some(e) => {
                let (c, n) = self.lower_node(*e);
                (c, Some(Box::new(n)))
            },
            None => (self, None),
        }
    }

    /// Attribute access, indexing and slicing become their nodes.
    pub open spec fn lower_access(self, e: AstExpr) -> (CState, LValue)
        decreases e, 0nat,
    {
        match e.node {
            Expr::Dot(left, right) => {
                let (c, l) = self.lower_node(*left);
                (c, LValue::Compiled(LExpr { span: e.span, node: LNode::Dot(Box::new(l), right@) }))
            },
            Expr::ArrayIndirection(array, index) => {
                let (c1, a) = self.lower_node(*array);
                let (c2, i) = c1.lower_node(*index);
                (
                    c2,
                    LValue::Compiled(
                        LExpr { span: e.span, node: LNode::Index(Box::new(a), Box::new(i)) },
                    ),
                )
            },
            Expr::Slice(collection, start, stop, stride) => {
                let (c0, x) = self.lower_node(*collection);
                let (c1, a) = c0.lower_opt(start);
                let (c2, b) = c1.lower_opt(stop);
                let (c3, s) = c2.lower_opt(stride);
                (
                    c3,
                    LValue::Compiled(
                        LExpr { span: e.span, node: LNode::Slice(Box::new(x), a, b, s) },
                    ),
                )
            },
            _ => (self, LValue::Compiled(nothing())),
        }
    }

    /// The state and the arguments after compiling `args[i..]` in order, after `acc`. The
    /// name of a named argument goes to the frozen heap before its value is compiled.
    pub open spec fn lower_args(self, args: Vec<Argument>, i: int, acc: LGeneral) -> (
        CState,
        LGeneral,
    )
        decreases args, args.len() - i,
    {
        if i < 0 || i >= args.len() {
            (self, acc)
        } else {
            match args@[i] {
                Argument::Positional(x) => {
                    let (c, n) = self.lower_node(x);
                    c.lower_args(
                        args,
                        i + 1,
                        LGeneral { pos_named: acc.pos_named.push(n), ..acc },
                    )
                },
                Argument::Named(name, value) => {
                    let (c0, key) = self.constant(Entry::Str(name@));
                    let (c, n) = c0.lower_node(value);
                    c.lower_args(
                        args,
                        i + 1,
                        LGeneral {
                            pos_named: acc.pos_named.push(n),
                            names: acc.names.push((name@, key)),
                            ..acc
                        },
                    )
                },
                Argument::Args(x) => {
                    let (c, n) = self.lower_node(x);
                    c.lower_args(args, i + 1, LGeneral { args: Some(Box::new(n)), ..acc })
                },
                Argument::KWargs(x) => {
                    let (c, n) = self.lower_node(x);
                    c.lower_args(args, i + 1, LGeneral { kwargs: Some(Box::new(n)), ..acc })
                },
            }
        }
    }

    /// A call of a method becomes one node that fetches the method and calls it. A call of
    /// the built-in `type` or `len` with one positional argument becomes the node that
    /// looks at the value directly. Any other call becomes a call node. The arguments are
    /// compiled before the callee.
    pub open spec fn lower_call(self, e: AstExpr) -> (CState, LValue)
        decreases e, 0nat,
    {
        match e.node {
            Expr::Call(left, args) => {
                let (c0, g) = self.lower_args(
                    args,
                    0,
                    LGeneral {
                        pos_named: Seq::empty(),
                        names: Seq::empty(),
                        args: None,
                        kwargs: None,
                    },
                );
                match left.node {
                    Expr::Dot(x, s) => {
                        let (c, receiver) = c0.lower_node(*x);
                        (
                            c,
                            LValue::Compiled(
                                LExpr {
                                    span: e.span,
                                    node: LNode::CallMethod(Box::new(receiver), s@, specialised(g)),
                                },
                            ),
                        )
                    },
                    _ => {
                        let (c, l) = c0.lower(*left);
                        (
                            c,
                            LValue::Compiled(
                                LExpr {
                                    span: e.span,
                                    node: plain_call_node(
                                        l,
                                        g,
                                        c.fn_type,
                                        c.fn_len,
                                        left.span,
                                    ),
                                },
                            ),
                        )
                    },
                }
            },
            _ => (self, LValue::Compiled(nothing())),
        }
    }

    /// A chain of `+` on string literals becomes one constant string, and so does `+` on
    /// two constant strings. Any other operator becomes its node.
    pub open spec fn lower_op(self, e: AstExpr) -> (CState, LValue)
        decreases e, 0nat,
    {
        match e.node {
            Expr::Op(left, op, right) => match chain_text(op, *left, *right) {
                Some(x) => {
                    let (c, v) = self.constant(Entry::Str(x));
                    (c, LValue::Value(v))
                },
                None => {
                    let (c1, l) = self.lower(*left);
                    let (c2, r) = c1.lower(*right);
                    let texts = match (l, r) {
                        (LValue::Value(a), LValue::Value(b)) => match (
                            c2.store.target(a.to_value_spec()),
                            c2.store.target(b.to_value_spec()),
                        ) {
                            (Target::Str(x), Target::Str(y)) => Some(x + y),
                            _ => None,
                        },
                        _ => None,
                    };
                    if op == BinOp::Add && texts is Some {
                        let (c, v) = c2.constant(Entry::Str(texts.unwrap()));
                        (c, LValue::Value(v))
                    } else {
                        (
                            c2,
                            LValue::Compiled(
                                LExpr {
                                    span: e.span,
                                    node: binary_node(
                                        op,
                                        l.as_compiled(left.span),
                                        r.as_compiled(right.span),
                                    ),
                                },
                            ),
                        )
                    }
                },
            },
            _ => (self, LValue::Compiled(nothing())),
        }
    }

    /// The state and the parameters after compiling `params[i..]`: the defaults are
    /// compiled where the function is defined.
    pub open spec fn lower_params(self, params: Vec<Parameter>, i: int, acc: LParams) -> (
        CState,
        LParams,
    )
        decreases params, params.len() - i,
    {
        if i < 0 || i >= params.len() {
            (self, acc)
        } else {
            match params@[i] {
                Parameter::Normal(n) => self.lower_params(
                    params,
                    i + 1,
                    LParams {
                        names: acc.names.push(n@),
                        params: acc.params.push(LParam::Normal(n@)),
                        ..acc
                    },
                ),
                Parameter::WithDefaultValue(n, d) => {
                    let (c, x) = self.lower_node(*d);
                    c.lower_params(
                        params,
                        i + 1,
                        LParams {
                            names: acc.names.push(n@),
                            params: acc.params.push(LParam::WithDefaultValue(n@)),
                            defaults: acc.defaults.push(x),
                        },
                    )
                },
                Parameter::NoArgs => self.lower_params(
                    params,
                    i + 1,
                    LParams { params: acc.params.push(LParam::NoArgs), ..acc },
                ),
                Parameter::Args(n) => self.lower_params(
                    params,
                    i + 1,
                    LParams {
                        names: acc.names.push(n@),
                        params: acc.params.push(LParam::Args(n@)),
                        ..acc
                    },
                ),
                Parameter::KWargs(n) => self.lower_params(
                    params,
                    i + 1,
                    LParams {
                        names: acc.names.push(n@),
                        params: acc.params.push(LParam::KWargs(n@)),
                        ..acc
                    },
                ),
            }
        }
    }

    /// A function becomes the node that makes it: the body is compiled in a scope of its
    /// own, whose slots are the parameters and then the captured variables, and goes to
    /// the code of the module.
    pub open spec fn lower_function(self, e: AstExpr) -> (CState, LValue)
        decreases e, 0nat,
    {
        match e.node {
            Expr::Lambda(params, inner) => {
                let (c1, p) = self.lower_params(
                    params,
                    0,
                    LParams { names: Seq::empty(), params: Seq::empty(), defaults: Seq::empty() },
                );
                let c2 = CState { scope: c1.scope.enter(p.names), ..c1 };
                let (c3, body) = c2.lower_node(*inner);
                let (slots, parent) = if c3.scope.functions.len() > 0 {
                    (
                        c3.scope.functions.last().names.len() as usize,
                        c3.scope.functions.last().parent,
                    )
                } else {
                    (0usize, Seq::empty())
                };
                (
                    CState {
                        scope: c3.scope.exit(),
                        code: c3.code.push(
                            LDef { name: "lambda"@, params: p.params, body, slots, parent },
                        ),
                        ..c3
                    },
                    LValue::Compiled(
                        LExpr {
                            span: e.span,
                            node: LNode::Def(c3.code.len() as usize, p.defaults),
                        },
                    ),
                )
            },
            _ => (self, LValue::Compiled(nothing())),
        }
    }
}

} // verus!
