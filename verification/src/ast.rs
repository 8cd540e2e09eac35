//! The syntax tree of expressions, as a parser hands it to the compiler.
use vstd::prelude::*;
use crate::equality::MAX_NESTING;
use crate::errors::Span;

verus! {

/// A literal of the source text.
#[derive(Debug)]
pub enum AstLiteral {
    IntLiteral(i32),
    StringLiteral(String),
}

/// The binary operators.
#[derive(Clone, Copy, PartialEq, Eq, Structural, Debug)]
pub enum BinOp {
    Or,
    And,
    Equal,
    NotEqual,
    Less,
    Greater,
    LessOrEqual,
    GreaterOrEqual,
    In,
    NotIn,
    Subtract,
    Add,
    Multiply,
    Percent,
    FloorDivide,
    BitAnd,
    BitOr,
    BitXor,
    LeftShift,
    RightShift,
}

/// One argument of a call.
#[derive(Debug)]
pub enum Argument {
    Positional(AstExpr),
    Named(String, AstExpr),
    Args(AstExpr),
    KWargs(AstExpr),
}

/// One parameter of a function.
#[derive(Debug)]
pub enum Parameter {
    Normal(String),
    WithDefaultValue(String, Box<AstExpr>),
    NoArgs,
    Args(String),
    KWargs(String),
}

/// The target of an assignment: a name, or a tuple of targets.
#[derive(Debug)]
pub enum Assign {
    Identifier(String),
    Tuple(Vec<Assign>),
}

/// A `for` clause of a comprehension: `for var in over`.
#[derive(Debug)]
pub struct ForClause {
    pub var: Assign,
    pub over: AstExpr,
}

/// A clause of a comprehension after the first: another `for`, or an `if`.
#[derive(Debug)]
pub enum Clause {
    For(ForClause),
    If(AstExpr),
}

/// An expression with the place in the source where it stands.
#[derive(Debug)]
pub struct AstExpr {
    pub span: Span,
    pub node: Expr,
}

/// An expression.
#[derive(Debug)]
pub enum Expr {
    Tuple(Vec<AstExpr>),
    Dot(Box<AstExpr>, String),
    Call(Box<AstExpr>, Vec<Argument>),
    ArrayIndirection(Box<AstExpr>, Box<AstExpr>),
    Slice(Box<AstExpr>, Option<Box<AstExpr>>, Option<Box<AstExpr>>, Option<Box<AstExpr>>),
    Identifier(String),
    Lambda(Vec<Parameter>, Box<AstExpr>),
    Literal(AstLiteral),
    Not(Box<AstExpr>),
    Minus(Box<AstExpr>),
    Plus(Box<AstExpr>),
    BitNot(Box<AstExpr>),
    Op(Box<AstExpr>, BinOp, Box<AstExpr>),
    If(Box<AstExpr>, Box<AstExpr>, Box<AstExpr>),
    List(Vec<AstExpr>),
    Dict(Vec<(AstExpr, AstExpr)>),
    ListComprehension(Box<AstExpr>, Box<ForClause>, Vec<Clause>),
    DictComprehension(Box<(AstExpr, AstExpr)>, Box<ForClause>, Vec<Clause>),
}

/// The mathematical value of an expression that is made of literals only.
pub enum Constant {
    Int(i32),
    Str(Seq<char>),
    Tuple(Seq<Constant>),
    List(Seq<Constant>),
    /// The keys and the values of a dictionary, in the order of its entries.
    Dict(Seq<Constant>, Seq<Constant>),
}

/// Can the constant be a key of a dictionary: is it an integer, a string, or a tuple of
/// such constants, nested at most `depth` levels?
pub open spec fn key_ok(c: Constant, depth: nat) -> bool
    decreases depth,
{
    match c {
        Constant::Int(_) => true,
        Constant::Str(_) => true,
        Constant::Tuple(cs) => depth > 0 && forall|i: int|
            0 <= i < cs.len() ==> key_ok(#[trigger] cs[i], (depth - 1) as nat),
        _ => false,
    }
}

/// Can the constants `ks` be the keys of one dictionary: can each be a key, and are no
/// two of them the same?
pub open spec fn distinct_keys(ks: Seq<Constant>) -> bool {
    &&& forall|i: int| 0 <= i < ks.len() ==> key_ok(#[trigger] ks[i], MAX_NESTING as nat)
    &&& forall|i: int, j: int| 0 <= i < j < ks.len() ==> ks[i] != ks[j]
}

/// The names that the target `a` defines, in order.
pub open spec fn defined(a: Assign) -> Seq<Seq<char>>
    decreases a,
{
    match a {
        Assign::Identifier(n) => seq![n@],
        Assign::Tuple(xs) => defined_all(xs, 0),
    }
}

/// The names that the targets `xs[i..]` define, in order.
pub open spec fn defined_all(xs: Vec<Assign>, i: int) -> Seq<Seq<char>>
    decreases xs, xs.len() - i,
{
    if i < 0 || i >= xs.len() {
        Seq::empty()
    } else {
        defined(xs@[i]) + defined_all(xs, i + 1)
    }
}

impl Expr {
    /// Collects the variables defined by the target of an assignment, or of a `for`.
    pub fn collect_defines_lvalue(expr: &Assign, result: &mut Vec<String>)
        ensures
            final(result).deep_view() == old(result).deep_view() + defined(*expr),
        decreases expr,
    {
        match expr {
            Assign::Identifier(n) => {
                let ghost before = result.deep_view();
                result.push(n.clone());
                assert(result.deep_view() =~= before + seq![n@]);
            },
            Assign::Tuple(xs) => {
                let mut i: usize = 0;
                assert(result.deep_view() + defined_all(*xs, xs.len() as int) =~= result.deep_view());
                while i < xs.len()
                    invariant
                        i <= xs.len(),
                        *expr == Assign::Tuple(*xs),
                        old(result).deep_view() + defined_all(*xs, 0) == result.deep_view()
                            + defined_all(*xs, i as int),
                    decreases xs.len() - i,
                {
                    let ghost before = result.deep_view();
                    assert(expr->Tuple_0 == *xs);
                    Expr::collect_defines_lvalue(&xs[i], result);
                    assert(before + (defined(xs@[i as int]) + defined_all(*xs, i + 1)) =~= (before
                        + defined(xs@[i as int])) + defined_all(*xs, i + 1));
                    i += 1;
                }
                assert(result.deep_view() + defined_all(*xs, xs.len() as int)
                    =~= result.deep_view());
            },
        }
    }

    /// The integer, if this is an integer literal.
    pub open spec fn int_literal(self) -> Option<i32> {
        match self {
            Expr::Literal(AstLiteral::IntLiteral(i)) => Some(i),
            _ => None,
        }
    }

    /// The text, if this is a string literal.
    pub open spec fn string_literal(self) -> Option<Seq<char>> {
        match self {
            Expr::Literal(AstLiteral::StringLiteral(s)) => Some(s@),
            _ => None,
        }
    }

    /// The integer, if this is an integer literal.
    pub fn unpack_int_literal(&self) -> (r: Option<i32>)
        ensures
            r == self.int_literal(),
    {
        match self {
            Expr::Literal(AstLiteral::IntLiteral(i)) => Some(*i),
            _ => None,
        }
    }

    /// The text, if this is a string literal.
    pub fn unpack_string_literal(&self) -> (r: Option<&str>)
        ensures
            match self.string_literal() {
                Some(s) => r is Some && r.unwrap()@ == s,
                None => r is None,
            },
    {
        match self {
            Expr::Literal(AstLiteral::StringLiteral(s)) => Some(s.as_str()),
            _ => None,
        }
    }
}

/// The value of the expression `e`, if it is made only of integer and string literals,
/// negation and `+` of integers, `+` of strings, tuples, lists with an element, and
/// dictionaries with an entry whose keys are integers, strings and tuples of such, no two
/// the same. An integer that has no negation makes no value. An empty list or dictionary
/// is no constant: each evaluation makes a new one, which can change.
pub open spec fn constant_of(e: AstExpr) -> Option<Constant>
    decreases e,
{
    match e.node {
        Expr::Literal(AstLiteral::IntLiteral(i)) => Some(Constant::Int(i)),
        Expr::Literal(AstLiteral::StringLiteral(s)) => Some(Constant::Str(s@)),
        Expr::Minus(x) => match constant_of(*x) {
            Some(Constant::Int(i)) if i != i32::MIN => Some(Constant::Int((-i) as i32)),
            _ => None,
        },
        Expr::Plus(x) => match constant_of(*x) {
            Some(Constant::Int(i)) => Some(Constant::Int(i)),
            _ => None,
        },
        Expr::Op(l, BinOp::Add, r) => match (constant_of(*l), constant_of(*r)) {
            (Some(Constant::Str(a)), Some(Constant::Str(b))) => Some(Constant::Str(a + b)),
            _ => None,
        },
        Expr::Tuple(xs) => match constants_from(xs, 0) {
            Some(cs) => Some(Constant::Tuple(cs)),
            None => None,
        },
        Expr::List(xs) => match constants_from(xs, 0) {
            Some(cs) if cs.len() > 0 => Some(Constant::List(cs)),
            _ => None,
        },
        Expr::Dict(kvs) => match (keys_from(kvs, 0), values_from(kvs, 0)) {
            (Some(ks), Some(vs)) if ks.len() > 0 && distinct_keys(ks) => Some(
                Constant::Dict(ks, vs),
            ),
            _ => None,
        },
        _ => None,
    }
}

/// The values of the keys of the entries `kvs[i..]`, if each has one.
pub open spec fn keys_from(kvs: Vec<(AstExpr, AstExpr)>, i: int) -> Option<Seq<Constant>>
    decreases kvs, kvs.len() - i,
{
    if i < 0 || i >= kvs.len() {
        Some(Seq::empty())
    } else {
        match (constant_of(kvs[i].0), keys_from(kvs, i + 1)) {
            (Some(c), Some(cs)) => Some(seq![c] + cs),
            _ => None,
        }
    }
}

/// The values of the values of the entries `kvs[i..]`, if each has one.
pub open spec fn values_from(kvs: Vec<(AstExpr, AstExpr)>, i: int) -> Option<Seq<Constant>>
    decreases kvs, kvs.len() - i,
{
    if i < 0 || i >= kvs.len() {
        Some(Seq::empty())
    } else {
        match (constant_of(kvs[i].1), values_from(kvs, i + 1)) {
            (Some(c), Some(cs)) => Some(seq![c] + cs),
            _ => None,
        }
    }
}

/// The values of the expressions `xs[i..]`, if each has one.
pub open spec fn constants_from(xs: Vec<AstExpr>, i: int) -> Option<Seq<Constant>>
    decreases xs, xs.len() - i,
{
    if i < 0 || i >= xs.len() {
        Some(Seq::empty())
    } else {
        match (constant_of(xs[i]), constants_from(xs, i + 1)) {
            (Some(c), Some(cs)) => Some(seq![c] + cs),
            _ => None,
        }
    }
}

/// The text that a chain of `+` on string literals spells: `(a + b) + c` and so on, with
/// a literal on every right and at the far left.
pub open spec fn chain_text(op: BinOp, left: AstExpr, right: AstExpr) -> Option<Seq<char>>
    decreases left,
{
    if op != BinOp::Add {
        None
    } else {
        match right.node.string_literal() {
            None => None,
            Some(last) => match left.node {
                Expr::Op(l2, op2, r2) => match chain_text(op2, *l2, *r2) {
                    Some(first) => Some(first + last),
                    None => None,
                },
                _ => match left.node.string_literal() {
                    Some(first) => Some(first + last),
                    None => None,
                },
            },
        }
    }
}

/// A chain of `+` on string literals has the value that it spells.
pub proof fn lemma_chain_constant(e: AstExpr)
    requires
        e.node is Op,
        chain_text(e.node->Op_1, *e.node->Op_0, *e.node->Op_2) is Some,
    ensures
        constant_of(e) == Some(
            Constant::Str(chain_text(e.node->Op_1, *e.node->Op_0, *e.node->Op_2).unwrap()),
        ),
    decreases e,
{
    let left = *e.node->Op_0;
    let right = *e.node->Op_2;
    let last = right.node.string_literal().unwrap();
    assert(e.node->Op_1 == BinOp::Add);
    assert(constant_of(right) == Some(Constant::Str(last)));
    match left.node {
        Expr::Op(l2, op2, r2) => {
            lemma_chain_constant(left);
            let first = chain_text(op2, *l2, *r2).unwrap();
            assert(constant_of(left) == Some(Constant::Str(first)));
        },
        _ => {
            let first = left.node.string_literal().unwrap();
            assert(constant_of(left) == Some(Constant::Str(first)));
        },
    }
    assert(e.node == Expr::Op(Box::new(left), BinOp::Add, Box::new(right)));
}

} // verus!
