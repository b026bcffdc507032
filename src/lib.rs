//! Builds a typed abstract syntax tree, with source spans, from the tree of
//! tagged rule occurrences that a grammar engine produces for a small
//! expression language.

pub mod ast;
pub mod builder;
pub mod error;
pub mod laws;
pub mod model;
pub mod number;
pub mod occurrence;

pub use ast::{
    Assignment, AstNode, Block, Expression, FunctionCall, FunctionDefinition, Identifier, Number,
    Program,
};
pub use builder::{build_program, parse_expression, parse_identifier, parse_program};
pub use error::{AstError, ChildContext, ParseError, StructuralProblem, MAX_NESTING};
pub use occurrence::{Occurrence, RuleKind, Span};
