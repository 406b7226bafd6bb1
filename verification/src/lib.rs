//! A small interpreter for a Lisp-like expression language: a parser from
//! source text to a syntax tree and a tree-walking evaluator over a mutable
//! binding environment, both with machine-checked contracts.

pub mod small_string;
pub mod error;
pub mod check;
pub mod number;
pub mod expression;
pub mod equality;
pub mod conversions;
pub mod type_info;
pub mod semantics;
pub mod laws;
pub mod env;
pub mod evaluator;
pub mod evaluatable;
pub mod grammar;
pub mod parser;
pub mod interpreter;
pub mod display;
pub mod scope;
pub mod interner;
pub mod cheap_clone;

pub use cheap_clone::CheapClone;
pub use check::{ensure_exact_arity, ensure_minimum_arity};
pub use env::Env;
pub use error::{Error, ErrorView};
pub use evaluatable::{resolve_argument, Evaluable};
pub use expression::{
    Application, Atom, Binding, BuiltIn, Expression, FnIdentifier, If, IfElse, Lambda,
};
pub use interpreter::Interpreter;
pub use parser::{parse_atom, parse_expression, IResult, ParseError};
pub use interner::StringInterner;
pub use scope::Scope;
pub use small_string::SmallString;
pub use type_info::Typed;
