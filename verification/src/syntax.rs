//! The syntax tree that a parser hands over: the call expressions of a
//! document in source order, and its simple assignments.

use vstd::prelude::*;

verus! {

/// An argument of a call. `literal` holds the text of a string literal and
/// is `None` for any other expression. The position is that of the argument.
#[derive(Clone, Debug)]
pub struct Argument {
    pub literal: Option<String>,
    pub line: usize,
    pub column: usize,
}

/// A keyword argument `name=value`.
#[derive(Clone, Debug)]
pub struct Keyword {
    pub name: String,
    pub value: Argument,
}

/// A call expression: the name called, its arguments, and where it starts.
#[derive(Clone, Debug)]
pub struct CallExpr {
    pub callee: String,
    pub positional: Vec<Argument>,
    pub keywords: Vec<Keyword>,
    pub line: usize,
    pub column: usize,
}

/// The right-hand side of an assignment: literals joined by `+` (a single
/// literal is a list of one), or any other expression.
#[derive(Clone, Debug)]
pub enum AssignedValue {
    Literals(Vec<String>),
    Expression,
}

/// An assignment of a value to a plain name.
#[derive(Clone, Debug)]
pub struct Assignment {
    pub target: String,
    pub value: AssignedValue,
}

/// A parsed document. `calls` lists every call expression once, top to
/// bottom and depth first.
#[derive(Clone, Debug)]
pub struct SyntaxTree {
    pub calls: Vec<CallExpr>,
    pub assignments: Vec<Assignment>,
}

/// Why a parser could not produce a tree.
#[derive(Clone, Debug, PartialEq, Eq)]
pub struct ParseError {
    pub message: String,
}

} // verus!
