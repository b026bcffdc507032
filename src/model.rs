use vstd::prelude::*;

use crate::ast::{
    AssignmentModel, BlockModel, ExpressionModel, FunctionCallModel, FunctionDefinitionModel,
    IdentifierModel, NumberModel, ProgramModel,
};
use crate::error::{ChildContext, ErrorModel, StructuralProblem, MAX_NESTING};
use crate::number::i64_of_text;
use crate::occurrence::{Occurrence, RuleKind};

verus! {

broadcast use {vstd::seq::group_seq_axioms, vstd::std_specs::vec::group_vec_axioms};

/// The error for an occurrence `o` handed to the builder of `expected`.
pub open spec fn mismatch(expected: RuleKind, o: Occurrence) -> ErrorModel {
    ErrorModel::RuleMismatch { expected, actual: o.rule, text: o.text@, span: o.span }
}

/// What the identifier builder gives for `o`.
pub open spec fn identifier_result(o: Occurrence) -> Result<IdentifierModel, ErrorModel> {
    if o.rule != RuleKind::Identifier {
        Err(mismatch(RuleKind::Identifier, o))
    } else {
        Ok(IdentifierModel { name: o.text@, span: o.span })
    }
}

/// What the number builder gives for `o`.
pub open spec fn number_result(o: Occurrence) -> Result<NumberModel, ErrorModel> {
    if o.rule != RuleKind::Number {
        Err(mismatch(RuleKind::Number, o))
    } else {
        match i64_of_text(o.text@) {
            Some(value) => Ok(NumberModel { value, span: o.span }),
            None => Err(ErrorModel::NumericConversion { text: o.text@, span: o.span }),
        }
    }
}

/// The identifiers built from the children of `l` from position `i` on, or the
/// first error among them.
pub open spec fn identifiers_from(l: Occurrence, i: int) -> Result<
    Seq<IdentifierModel>,
    ErrorModel,
>
    decreases l.children.len() - i,
{
    if i < 0 || i >= l.children.len() {
        Ok(Seq::empty())
    } else {
        match identifier_result(l.children[i]) {
            Err(e) => Err(e),
            Ok(x) => prepend(seq![x], identifiers_from(l, i + 1)),
        }
    }
}

/// What the expression builder gives for `o` when `o` and the expressions
/// inside it may nest at most `budget` deep.
pub open spec fn expression_result(o: Occurrence, budget: nat) -> Result<
    ExpressionModel,
    ErrorModel,
>
    decreases o, 0int,
{
    if budget == 0 {
        Err(ErrorModel::NestingTooDeep { span: o.span })
    } else if o.rule != RuleKind::Expression {
        Err(mismatch(RuleKind::Expression, o))
    } else if o.children.len() != 1 {
        Err(ErrorModel::MissingChild { context: ChildContext::ExpressionInner })
    } else {
        let c = o.children[0];
        match c.rule {
            RuleKind::Number => match number_result(c) {
                Ok(n) => Ok(ExpressionModel::Number(n)),
                Err(e) => Err(e),
            },
            RuleKind::Identifier => match identifier_result(c) {
                Ok(i) => Ok(ExpressionModel::Identifier(i)),
                Err(e) => Err(e),
            },
            RuleKind::FunctionCall => match function_call_result(c, (budget - 1) as nat) {
                Ok(f) => Ok(ExpressionModel::FunctionCall(f)),
                Err(e) => Err(e),
            },
            RuleKind::FunctionDefinition => match function_definition_result(
                c,
                (budget - 1) as nat,
            ) {
                Ok(f) => Ok(ExpressionModel::FunctionDefinition(f)),
                Err(e) => Err(e),
            },
            RuleKind::Block => match block_result(c, (budget - 1) as nat) {
                Ok(b) => Ok(ExpressionModel::Block(b)),
                Err(e) => Err(e),
            },
            _ => Err(ErrorModel::UnexpectedRule { actual: c.rule, text: c.text@, span: c.span }),
        }
    }
}

/// The expressions built from the children of `a` from position `i` on, or the
/// first error among them.
pub open spec fn expressions_from(a: Occurrence, i: int, budget: nat) -> Result<
    Seq<ExpressionModel>,
    ErrorModel,
>
    decreases a, a.children.len() - i,
{
    if i < 0 || i >= a.children.len() {
        Ok(Seq::empty())
    } else {
        match expression_result(a.children[i], budget) {
            Err(e) => Err(e),
            Ok(x) => prepend(seq![x], expressions_from(a, i + 1, budget)),
        }
    }
}

/// What the function call builder gives for `o`: the callee, then the
/// arguments if an argument list is present (none otherwise).
pub open spec fn function_call_result(o: Occurrence, budget: nat) -> Result<
    FunctionCallModel,
    ErrorModel,
>
    decreases o, 0int,
{
    if o.rule != RuleKind::FunctionCall {
        Err(mismatch(RuleKind::FunctionCall, o))
    } else if o.children.len() == 0 {
        Err(ErrorModel::MissingChild { context: ChildContext::FunctionCallName })
    } else {
        match identifier_result(o.children[0]) {
            Err(e) => Err(e),
            Ok(function_name) => if o.children.len() == 1 {
                Ok(FunctionCallModel { function_name, arguments: Seq::empty(), span: o.span })
            } else if o.children[1].rule != RuleKind::FunctionArguments {
                Err(mismatch(RuleKind::FunctionArguments, o.children[1]))
            } else {
                match expressions_from(o.children[1], 0, budget) {
                    Err(e) => Err(e),
                    Ok(arguments) => Ok(
                        FunctionCallModel { function_name, arguments, span: o.span },
                    ),
                }
            },
        }
    }
}

/// What the function definition builder gives for `o`: a leading parameter list
/// is taken when the first child is one, and the body is the child after it;
/// otherwise there are no parameters and the first child is the body.
pub open spec fn function_definition_result(o: Occurrence, budget: nat) -> Result<
    FunctionDefinitionModel,
    ErrorModel,
>
    decreases o, 0int,
{
    if o.rule != RuleKind::FunctionDefinition {
        Err(mismatch(RuleKind::FunctionDefinition, o))
    } else if o.children.len() == 0 {
        Err(ErrorModel::MissingChild { context: ChildContext::FunctionDefinitionBody })
    } else if o.children[0].rule == RuleKind::IdentList {
        match identifiers_from(o.children[0], 0) {
            Err(e) => Err(e),
            Ok(parameters) => if o.children.len() < 2 {
                Err(ErrorModel::MissingChild { context: ChildContext::FunctionDefinitionBody })
            } else {
                match expression_result(o.children[1], budget) {
                    Err(e) => Err(e),
                    Ok(body) => Ok(
                        FunctionDefinitionModel { parameters, body: Box::new(body), span: o.span },
                    ),
                }
            },
        }
    } else {
        match expression_result(o.children[0], budget) {
            Err(e) => Err(e),
            Ok(body) => Ok(
                FunctionDefinitionModel {
                    parameters: Seq::empty(),
                    body: Box::new(body),
                    span: o.span,
                },
            ),
        }
    }
}

/// The rest of a block built from the children of `o` from position `i` on:
/// an unbroken run of assignments, then exactly one trailing expression and
/// nothing after it; or the first error met on the way.
pub open spec fn block_from(o: Occurrence, i: int, budget: nat) -> Result<
    (Seq<AssignmentModel>, ExpressionModel),
    ErrorModel,
>
    decreases o, o.children.len() - i,
{
    if i < 0 || i >= o.children.len() {
        Err(ErrorModel::MissingChild { context: ChildContext::BlockTail })
    } else if o.children[i].rule == RuleKind::Assignment {
        match assignment_result(o.children[i], budget) {
            Err(e) => Err(e),
            Ok(x) => prepend_run(seq![x], block_from(o, i + 1, budget)),
        }
    } else {
        match expression_result(o.children[i], budget) {
            Err(e) => Err(e),
            Ok(tail) => if i + 1 < o.children.len() {
                let extra = o.children[i + 1];
                Err(
                    ErrorModel::StructuralError {
                        problem: StructuralProblem::ExtraAfterBlockTail,
                        actual: extra.rule,
                        text: extra.text@,
                        span: extra.span,
                    },
                )
            } else {
                Ok((Seq::empty(), tail))
            },
        }
    }
}

/// What the block builder gives for `o`: the leading assignments, then exactly
/// one trailing expression and nothing after it.
pub open spec fn block_result(o: Occurrence, budget: nat) -> Result<BlockModel, ErrorModel>
    decreases o, o.children.len() + 1,
{
    if o.rule != RuleKind::Block {
        Err(mismatch(RuleKind::Block, o))
    } else {
        match block_from(o, 0, budget) {
            Err(e) => Err(e),
            Ok((assignments, tail)) => Ok(
                BlockModel { assignments, expression: Box::new(tail), span: o.span },
            ),
        }
    }
}

/// What the assignment builder gives for `o`: an identifier, then an expression
/// that may nest at most `budget` deep.
pub open spec fn assignment_result(o: Occurrence, budget: nat) -> Result<
    AssignmentModel,
    ErrorModel,
>
    decreases o, 0int,
{
    if o.rule != RuleKind::Assignment {
        Err(mismatch(RuleKind::Assignment, o))
    } else if o.children.len() == 0 {
        Err(ErrorModel::MissingChild { context: ChildContext::AssignmentIdentifier })
    } else {
        match identifier_result(o.children[0]) {
            Err(e) => Err(e),
            Ok(identifier) => if o.children.len() < 2 {
                Err(ErrorModel::MissingChild { context: ChildContext::AssignmentExpression })
            } else {
                match expression_result(o.children[1], budget) {
                    Err(e) => Err(e),
                    Ok(x) => Ok(
                        AssignmentModel { identifier, expression: Box::new(x), span: o.span },
                    ),
                }
            },
        }
    }
}

/// The assignments built from the children of the program occurrence `p` from
/// position `i` on, or the first error among them.
pub open spec fn program_items_from(p: Occurrence, i: int) -> Result<
    Seq<AssignmentModel>,
    ErrorModel,
>
    decreases p.children.len() - i,
{
    if i < 0 || i >= p.children.len() {
        Ok(Seq::empty())
    } else {
        let c = p.children[i];
        if c.rule != RuleKind::Assignment {
            Err(
                ErrorModel::StructuralError {
                    problem: StructuralProblem::NonAssignmentInProgram,
                    actual: c.rule,
                    text: c.text@,
                    span: c.span,
                },
            )
        } else {
            match assignment_result(c, MAX_NESTING as nat) {
                Err(e) => Err(e),
                Ok(x) => prepend(seq![x], program_items_from(p, i + 1)),
            }
        }
    }
}

/// What the program assembler gives for the engine's top-level occurrences.
pub open spec fn program_result(top: Seq<Occurrence>) -> Result<ProgramModel, ErrorModel> {
    if top.len() != 1 {
        Err(ErrorModel::TopLevelArity { found: top.len() })
    } else if top[0].rule != RuleKind::Program {
        Err(mismatch(RuleKind::Program, top[0]))
    } else {
        match program_items_from(top[0], 0) {
            Err(e) => Err(e),
            Ok(assignments) => Ok(ProgramModel { assignments, span: top[0].span }),
        }
    }
}

/// `prefix` put in front of the items of `r`, or `r`'s error.
pub open spec fn prepend<A>(prefix: Seq<A>, r: Result<Seq<A>, ErrorModel>) -> Result<
    Seq<A>,
    ErrorModel,
> {
    match r {
        Ok(rest) => Ok(prefix + rest),
        Err(e) => Err(e),
    }
}

/// `prefix` put in front of the assignments of a block's rest `r`, or `r`'s error.
pub open spec fn prepend_run(
    prefix: Seq<AssignmentModel>,
    r: Result<(Seq<AssignmentModel>, ExpressionModel), ErrorModel>,
) -> Result<(Seq<AssignmentModel>, ExpressionModel), ErrorModel> {
    match r {
        Ok((rest, tail)) => Ok((prefix + rest, tail)),
        Err(e) => Err(e),
    }
}

pub proof fn lemma_prepend_step<A>(prefix: Seq<A>, x: A, r: Result<Seq<A>, ErrorModel>)
    ensures
        prepend(prefix, prepend(seq![x], r)) == prepend(prefix.push(x), r),
{
    if let Ok(rest) = r {
        assert(prefix + (seq![x] + rest) =~= prefix.push(x) + rest);
    }
}

pub proof fn lemma_prepend_run_step(
    prefix: Seq<AssignmentModel>,
    x: AssignmentModel,
    r: Result<(Seq<AssignmentModel>, ExpressionModel), ErrorModel>,
)
    ensures
        prepend_run(prefix, prepend_run(seq![x], r)) == prepend_run(prefix.push(x), r),
{
    if let Ok((rest, tail)) = r {
        assert(prefix + (seq![x] + rest) =~= prefix.push(x) + rest);
    }
}

} // verus!
