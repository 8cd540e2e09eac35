//! The core of an interpreter for a deterministic configuration language:
//! values on a two-tier heap, a compiler from syntax trees to resolved
//! expression trees, an evaluator, the parameter protocol and the built-in
//! functions.
pub mod errors;

pub mod text;
pub mod value;
pub mod params;
pub mod object;
pub mod heap;
pub mod slots;
pub mod basics;
pub mod equality;
pub mod repr;
pub mod arith;
pub mod ops;
pub mod compiled;
pub mod state;
pub mod call;
pub mod eval;
pub mod function;
pub mod enumeration;
pub mod builtins;
pub mod collections;
pub mod stdlib;
pub mod ast;
pub mod scope;
pub mod lowering;
pub mod compiler;
pub mod inspect;
pub mod ordering;
pub mod freeze;
pub mod laws;
pub mod module;
pub mod frozen;
