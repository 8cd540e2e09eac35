//! The compiled form of expressions: a tree whose leaves hold resolved slots and constants.
use vstd::prelude::*;
use crate::arith::BinaryOp;
use crate::errors::Span;
use crate::value::FrozenValue;

verus! {

/// The four ordered comparisons.
#[derive(Clone, Copy, PartialEq, Eq, Structural, Debug)]
pub enum Comparison {
    Less,
    Greater,
    LessOrEqual,
    GreaterOrEqual,
}

/// The arguments of a call, compiled: the positional ones followed by the named ones, the
/// names of the named ones, and the `*args` and `**kwargs` expressions.
#[derive(Debug)]
pub struct ArgsCompiled {
    pub pos_named: Vec<ExprCompiled>,
    /// For each named argument: its name, and its name as a string value.
    pub names: Vec<(String, FrozenValue)>,
    pub args: Option<Box<ExprCompiled>>,
    pub kwargs: Option<Box<ExprCompiled>>,
}

/// The arguments of a call, by shape: calls with up to two positional arguments and
/// nothing else have shapes of their own.
#[derive(Debug)]
pub enum CallArgs {
    Args0,
    Args1(Box<ExprCompiled>),
    Args2(Box<ExprCompiled>, Box<ExprCompiled>),
    Args(ArgsCompiled),
}

/// One parameter of a function definition, compiled. The default of a parameter that has
/// one is evaluated where the function is defined.
#[derive(Debug)]
pub enum ParameterCompiled {
    Normal(String),
    WithDefaultValue(String),
    NoArgs,
    Args(String),
    KWargs(String),
}

/// The target of an assignment, compiled: the slot of a local variable, or a tuple of
/// targets.
#[derive(Debug)]
pub enum AssignCompiled {
    Slot(usize, String),
    Tuple(Vec<AssignCompiled>),
}

/// A clause of a comprehension, compiled.
#[derive(Debug)]
pub enum ClauseCompiled {
    For(AssignCompiled, ExprCompiled),
    If(ExprCompiled),
}

/// A function definition, compiled.
#[derive(Debug)]
pub struct DefCompiled {
    pub name: String,
    pub params: Vec<ParameterCompiled>,
    pub body: ExprCompiled,
    /// The number of local slots of a call.
    pub slots: usize,
    /// The captured variables: the slot in the defining scope, and the slot in this
    /// function.
    pub parent: Vec<(usize, usize)>,
}

/// A compiled expression, with the place in the source that its errors are pinned to.
#[derive(Debug)]
pub struct ExprCompiled {
    pub span: Span,
    pub node: Node,
}

/// What a compiled expression does.
#[derive(Debug)]
pub enum Node {
    /// A constant.
    Value(FrozenValue),
    /// The local variable in this slot, of this name.
    Local(usize, String),
    /// The module variable in this slot.
    Module(usize, String),
    /// A name that was not found when compiling: fails when evaluated.
    NotFound(String),
    Tuple(Vec<ExprCompiled>),
    /// A new list of these constants each time, which can change: the compiler makes this
    /// node for the empty list, and folds a list of constants that has an element.
    ListStatic(Vec<FrozenValue>),
    List(Vec<ExprCompiled>),
    /// A new dictionary of these constants, with distinct keys, each time: the compiler
    /// makes this node for the empty dictionary, and folds one that has an entry.
    DictStatic(Vec<(FrozenValue, FrozenValue)>),
    /// A dictionary whose keys are constants.
    DictStaticKey(Vec<(FrozenValue, ExprCompiled)>),
    Dict(Vec<(ExprCompiled, ExprCompiled)>),
    If(Box<ExprCompiled>, Box<ExprCompiled>, Box<ExprCompiled>),
    Dot(Box<ExprCompiled>, String),
    /// A call of the method of this name on the value of the expression.
    CallMethod(Box<ExprCompiled>, String, CallArgs),
    /// The name of the type of a value: `type(x)` where `type` is the built-in.
    TypeOf(Box<ExprCompiled>),
    /// The length of a value: `len(x)` where `len` is the built-in.
    Len(Box<ExprCompiled>),
    Call(Box<ExprCompiled>, CallArgs),
    Index(Box<ExprCompiled>, Box<ExprCompiled>),
    Slice(
        Box<ExprCompiled>,
        Option<Box<ExprCompiled>>,
        Option<Box<ExprCompiled>>,
        Option<Box<ExprCompiled>>,
    ),
    Not(Box<ExprCompiled>),
    Minus(Box<ExprCompiled>),
    Plus(Box<ExprCompiled>),
    BitNot(Box<ExprCompiled>),
    Or(Box<ExprCompiled>, Box<ExprCompiled>),
    And(Box<ExprCompiled>, Box<ExprCompiled>),
    /// `==`, or `!=` if the flag is set.
    Equals(Box<ExprCompiled>, Box<ExprCompiled>, bool),
    Compare(Box<ExprCompiled>, Box<ExprCompiled>, Comparison),
    /// `in`: is the first in the second; `not in` if the flag is set.
    In(Box<ExprCompiled>, Box<ExprCompiled>, bool),
    Binary(Box<ExprCompiled>, Box<ExprCompiled>, BinaryOp),
    /// A list comprehension: the element, and the clauses, the first of which is a `for`.
    ListComp(Box<ExprCompiled>, Vec<ClauseCompiled>),
    /// A dictionary comprehension: the key, the value, and the clauses.
    DictComp(Box<ExprCompiled>, Box<ExprCompiled>, Vec<ClauseCompiled>),
    /// A new function from the definition at this index of the code of the module, with
    /// the defaults of its parameters, in the order of the parameters that have one.
    Def(usize, Vec<ExprCompiled>),
}

/// The result of compiling an expression: a constant, or a node to evaluate.
#[derive(Debug)]
pub enum ExprCompiledValue {
    Value(FrozenValue),
    Compiled(ExprCompiled),
}

impl ArgsCompiled {
    /// Are these arguments one positional argument and nothing else?
    pub fn is_one_pos(&self) -> (r: bool)
        ensures
            r == (self.pos_named@.len() == 1 && self.names@.len() == 0 && self.args is None
                && self.kwargs is None),
    {
        self.pos_named.len() == 1 && self.names.len() == 0 && self.args.is_none()
            && self.kwargs.is_none()
    }
}

impl Node {
    /// The stable name of a node, for tracing: static and empty lists and dictionaries, the
    /// two forms of `in`, and each arithmetic operator have names of their own.
    pub open spec fn name_text(self) -> Seq<char> {
        match self {
            Node::Value(_) => "value"@,
            Node::Local(_, _) => "local"@,
            Node::Module(_, _) => "module"@,
            Node::NotFound(_) => "not_found"@,
            Node::Tuple(_) => "tuple"@,
            Node::ListStatic(v) => if v.len() == 0 {
                "list_empty"@
            } else {
                "list_static"@
            },
            Node::List(_) => "list"@,
            Node::DictStatic(v) => if v.len() == 0 {
                "dict_empty"@
            } else {
                "dict_static"@
            },
            Node::DictStaticKey(_) => "dict_static_key"@,
            Node::Dict(_) => "dict"@,
            Node::If(_, _, _) => "if_expr"@,
            Node::Dot(_, _) => "dot"@,
            Node::CallMethod(_, _, _) => "call_method"@,
            Node::TypeOf(_) => "type"@,
            Node::Len(_) => "len"@,
            Node::Call(_, _) => "call"@,
            Node::Index(_, _) => "index"@,
            Node::Slice(_, _, _, _) => "slice"@,
            Node::Not(_) => "not"@,
            Node::Minus(_) => "minus"@,
            Node::Plus(_) => "plus"@,
            Node::BitNot(_) => "bit_not"@,
            Node::Or(_, _) => "or"@,
            Node::And(_, _) => "and"@,
            Node::Equals(_, _, _) => "equals"@,
            Node::Compare(_, _, _) => "compare"@,
            Node::In(_, _, negate) => if negate {
                "not_in"@
            } else {
                "in"@
            },
            Node::Binary(_, _, op) => match op {
                BinaryOp::Subtract => "subtract"@,
                BinaryOp::Add => "add"@,
                BinaryOp::Multiply => "multiply"@,
                BinaryOp::Percent => "percent"@,
                BinaryOp::FloorDivide => "floor_divide"@,
                BinaryOp::BitAnd => "bit_and"@,
                BinaryOp::BitOr => "bit_or"@,
                BinaryOp::BitXor => "bit_xor"@,
                BinaryOp::LeftShift => "left_shift"@,
                BinaryOp::RightShift => "right_shift"@,
            },
            Node::ListComp(_, _) => "list_comprehension"@,
            Node::DictComp(_, _, _) => "dict_comprehension"@,
            Node::Def(_, _) => "def"@,
        }
    }

    /// The stable name of a node, for tracing.
    pub fn name(&self) -> (r: &'static str)
        ensures
            r@ == self.name_text(),
    {
        match self {
            Node::Value(_) => "value",
            Node::Local(_, _) => "local",
            Node::Module(_, _) => "module",
            Node::NotFound(_) => "not_found",
            Node::Tuple(_) => "tuple",
            Node::ListStatic(v) => if v.len() == 0 {
                "list_empty"
            } else {
                "list_static"
            },
            Node::List(_) => "list",
            Node::DictStatic(v) => if v.len() == 0 {
                "dict_empty"
            } else {
                "dict_static"
            },
            Node::DictStaticKey(_) => "dict_static_key",
            Node::Dict(_) => "dict",
            Node::If(_, _, _) => "if_expr",
            Node::Dot(_, _) => "dot",
            Node::CallMethod(_, _, _) => "call_method",
            Node::TypeOf(_) => "type",
            Node::Len(_) => "len",
            Node::Call(_, _) => "call",
            Node::Index(_, _) => "index",
            Node::Slice(_, _, _, _) => "slice",
            Node::Not(_) => "not",
            Node::Minus(_) => "minus",
            Node::Plus(_) => "plus",
            Node::BitNot(_) => "bit_not",
            Node::Or(_, _) => "or",
            Node::And(_, _) => "and",
            Node::Equals(_, _, _) => "equals",
            Node::Compare(_, _, _) => "compare",
            Node::In(_, _, negate) => if *negate {
                "not_in"
            } else {
                "in"
            },
            Node::Binary(_, _, op) => match op {
                BinaryOp::Subtract => "subtract",
                BinaryOp::Add => "add",
                BinaryOp::Multiply => "multiply",
                BinaryOp::Percent => "percent",
                BinaryOp::FloorDivide => "floor_divide",
                BinaryOp::BitAnd => "bit_and",
                BinaryOp::BitOr => "bit_or",
                BinaryOp::BitXor => "bit_xor",
                BinaryOp::LeftShift => "left_shift",
                BinaryOp::RightShift => "right_shift",
            },
            Node::ListComp(_, _) => "list_comprehension",
            Node::DictComp(_, _, _) => "dict_comprehension",
            Node::Def(_, _) => "def",
        }
    }
}

impl ExprCompiledValue {
    /// The constant, if this is one.
    pub fn as_value(&self) -> (r: Option<FrozenValue>)
        ensures
            r == (match self {
                ExprCompiledValue::Value(v) => Some(*v),
                ExprCompiledValue::Compiled(_) => None,
            }),
    {
        match self {
            ExprCompiledValue::Value(v) => Some(*v),
            ExprCompiledValue::Compiled(_) => None,
        }
    }

    /// This as a node to evaluate: a constant becomes the node that yields it.
    pub fn as_compiled(self, span: Span) -> (r: ExprCompiled)
        ensures
            r == (match self {
                ExprCompiledValue::Value(v) => ExprCompiled { span, node: Node::Value(v) },
                ExprCompiledValue::Compiled(c) => c,
            }),
    {
        match self {
            ExprCompiledValue::Value(v) => ExprCompiled { span, node: Node::Value(v) },
            ExprCompiledValue::Compiled(c) => c,
        }
    }
}

} // verus!
