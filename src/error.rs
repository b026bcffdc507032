use vstd::prelude::*;

use crate::occurrence::{RuleKind, Span};

verus! {

/// How deeply expressions may nest inside one another; deeper input is
/// reported as an error rather than exhausting the stack.
pub const MAX_NESTING: usize = 200;

/// Which required child occurrence was absent.
#[derive(Clone, Copy, Debug, PartialEq, Eq, Structural)]
pub enum ChildContext {
    /// "assignment: identifier"
    AssignmentIdentifier,
    /// "assignment: expression"
    AssignmentExpression,
    /// "expression: inner expression" (an expression holds exactly one child)
    ExpressionInner,
    /// "function call: name"
    FunctionCallName,
    /// "function definition: body"
    FunctionDefinitionBody,
    /// "block: trailing expression"
    BlockTail,
}

/// Children that are present but stand where they may not.
#[derive(Clone, Copy, Debug, PartialEq, Eq, Structural)]
pub enum StructuralProblem {
    /// Content after a block's trailing expression.
    ExtraAfterBlockTail,
    /// A direct child of the program that is not an assignment.
    NonAssignmentInProgram,
}

/// Why a tree of occurrences could not be turned into an AST. Every variant
/// describes the first violation met in a depth-first, left-to-right walk.
#[derive(Debug)]
pub enum AstError {
    /// A builder was handed an occurrence of another kind than it builds.
    RuleMismatch { expected: RuleKind, actual: RuleKind, text: String, span: Span },
    /// An expression's child is of a kind that no expression form has.
    UnexpectedRule { actual: RuleKind, text: String, span: Span },
    /// A required child occurrence is absent.
    MissingChild { context: ChildContext },
    /// A child occurrence that is present violates the expected arrangement.
    StructuralError { problem: StructuralProblem, actual: RuleKind, text: String, span: Span },
    /// A number's text is not a 64-bit signed integer; `reason` says why.
    NumericConversion { text: String, reason: String, span: Span },
    /// The engine's top-level result did not hold exactly one occurrence.
    TopLevelArity { found: usize },
    /// Expressions nest more than `MAX_NESTING` deep; `span` is the first
    /// expression beyond that depth.
    NestingTooDeep { span: Span },
}

/// The mathematical value of an [`AstError`], without the conversion reason.
pub enum ErrorModel {
    RuleMismatch { expected: RuleKind, actual: RuleKind, text: Seq<char>, span: Span },
    UnexpectedRule { actual: RuleKind, text: Seq<char>, span: Span },
    MissingChild { context: ChildContext },
    StructuralError { problem: StructuralProblem, actual: RuleKind, text: Seq<char>, span: Span },
    NumericConversion { text: Seq<char>, span: Span },
    TopLevelArity { found: nat },
    NestingTooDeep { span: Span },
}

impl View for AstError {
    type V = ErrorModel;

    open spec fn view(&self) -> ErrorModel {
        match self {
            AstError::RuleMismatch { expected, actual, text, span } => ErrorModel::RuleMismatch {
                expected: *expected,
                actual: *actual,
                text: text@,
                span: *span,
            },
            AstError::UnexpectedRule { actual, text, span } => ErrorModel::UnexpectedRule {
                actual: *actual,
                text: text@,
                span: *span,
            },
            AstError::MissingChild { context } => ErrorModel::MissingChild { context: *context },
            AstError::StructuralError { problem, actual, text, span } => {
                ErrorModel::StructuralError {
                    problem: *problem,
                    actual: *actual,
                    text: text@,
                    span: *span,
                }
            },
            AstError::NumericConversion { text, span, .. } => ErrorModel::NumericConversion {
                text: text@,
                span: *span,
            },
            AstError::TopLevelArity { found } => ErrorModel::TopLevelArity { found: *found as nat },
            AstError::NestingTooDeep { span } => ErrorModel::NestingTooDeep { span: *span },
        }
    }
}

/// A failure of the whole pipeline: either the grammar engine rejected the
/// source text, or its tree could not be turned into an AST.
#[derive(Debug)]
pub enum ParseError {
    /// The grammar engine's own error, exactly as it reported it.
    Syntax(String),
    /// The first violation met while building the AST.
    Ast(AstError),
}

/// `r` is the executable counterpart of the modelled result `m`.
pub open spec fn agrees<T: View>(r: Result<T, AstError>, m: Result<T::V, ErrorModel>) -> bool {
    match r {
        Ok(v) => m == Ok::<T::V, ErrorModel>(v@),
        Err(e) => m == Err::<T::V, ErrorModel>(e@),
    }
}

} // verus!
