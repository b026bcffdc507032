use vstd::prelude::*;

use crate::ast::{
    assignments_model, expressions_model, identifiers_model, lemma_assignments_model_push,
    lemma_expressions_model_push, lemma_identifiers_model_push, Assignment, Block, Expression,
    FunctionCall, FunctionDefinition, Identifier, Number, Program, ProgramModel,
};
use crate::error::{
    agrees, AstError, ChildContext, ErrorModel, ParseError, StructuralProblem, MAX_NESTING,
};
use crate::model::{
    assignment_result, block_from, block_result, expression_result, expressions_from,
    function_call_result, function_definition_result, identifier_result, identifiers_from,
    lemma_prepend_run_step, lemma_prepend_step, mismatch, number_result, prepend, prepend_run,
    program_items_from, program_result,
};
use crate::number::parse_i64;
use crate::occurrence::{Occurrence, RuleKind};

verus! {

broadcast use {vstd::seq::group_seq_axioms, vstd::std_specs::vec::group_vec_axioms};

/// The error for an occurrence `o` handed to the builder of `expected`.
fn mismatch_error(expected: RuleKind, o: &Occurrence) -> (e: AstError)
    ensures
        e@ == mismatch(expected, *o),
{
    AstError::RuleMismatch { expected, actual: o.rule, text: o.text.clone(), span: o.span }
}

/// Builds an identifier from an occurrence tagged `identifier`: its text is the
/// name. Any other tag is a rule mismatch.
pub fn parse_identifier(o: &Occurrence) -> (r: Result<Identifier, AstError>)
    ensures
        agrees(r, identifier_result(*o)),
{
    if o.rule != RuleKind::Identifier {
        return Err(mismatch_error(RuleKind::Identifier, o));
    }
    Ok(Identifier { name: o.text.clone(), span: o.span })
}

/// Builds a number from an occurrence tagged `number` whose text is a 64-bit
/// signed decimal integer.
fn parse_number(o: &Occurrence) -> (r: Result<Number, AstError>)
    ensures
        agrees(r, number_result(*o)),
{
    if o.rule != RuleKind::Number {
        return Err(mismatch_error(RuleKind::Number, o));
    }
    match parse_i64(o.text.as_str()) {
        Ok(value) => Ok(Number { value, span: o.span }),
        Err(reason) => Err(
            AstError::NumericConversion { text: o.text.clone(), reason, span: o.span },
        ),
    }
}

/// Builds an expression from an occurrence tagged `expression`, which holds
/// exactly one child: a number, an identifier, a function call, a function
/// definition or a block. Expressions may nest at most `MAX_NESTING` deep.
pub fn parse_expression(o: &Occurrence) -> (r: Result<Expression, AstError>)
    ensures
        agrees(r, expression_result(*o, MAX_NESTING as nat)),
{
    expression_within(o, MAX_NESTING)
}

/// Builds an expression that may nest at most `budget` deep.
fn expression_within(o: &Occurrence, budget: usize) -> (r: Result<Expression, AstError>)
    ensures
        agrees(r, expression_result(*o, budget as nat)),
    decreases o, 0int,
{
    if budget == 0 {
        return Err(AstError::NestingTooDeep { span: o.span });
    }
    if o.rule != RuleKind::Expression {
        return Err(mismatch_error(RuleKind::Expression, o));
    }
    if o.children.len() != 1 {
        return Err(AstError::MissingChild { context: ChildContext::ExpressionInner });
    }
    let c = &o.children[0];
    match c.rule {
        RuleKind::Number => match parse_number(c) {
            Ok(n) => Ok(Expression::Number(n)),
            Err(e) => Err(e),
        },
        RuleKind::Identifier => match parse_identifier(c) {
            Ok(i) => Ok(Expression::Identifier(i)),
            Err(e) => Err(e),
        },
        RuleKind::FunctionCall => match parse_function_call(c, budget - 1) {
            Ok(f) => Ok(Expression::FunctionCall(f)),
            Err(e) => Err(e),
        },
        RuleKind::FunctionDefinition => match parse_function_definition(c, budget - 1) {
            Ok(f) => Ok(Expression::FunctionDefinition(f)),
            Err(e) => Err(e),
        },
        RuleKind::Block => match parse_block(c, budget - 1) {
            Ok(b) => Ok(Expression::Block(b)),
            Err(e) => Err(e),
        },
        _ => Err(AstError::UnexpectedRule { actual: c.rule, text: c.text.clone(), span: c.span }),
    }
}

/// Builds a function call: the callee, then, when a second child is present,
/// the expressions of the argument list it must be.
fn parse_function_call(o: &Occurrence, budget: usize) -> (r: Result<FunctionCall, AstError>)
    ensures
        agrees(r, function_call_result(*o, budget as nat)),
    decreases o, 0int,
{
    if o.rule != RuleKind::FunctionCall {
        return Err(mismatch_error(RuleKind::FunctionCall, o));
    }
    if o.children.len() == 0 {
        return Err(AstError::MissingChild { context: ChildContext::FunctionCallName });
    }
    let function_name = match parse_identifier(&o.children[0]) {
        Ok(i) => i,
        Err(e) => return Err(e),
    };
    let mut arguments: Vec<Expression> = Vec::new();
    if o.children.len() > 1 {
        let a = &o.children[1];
        if a.rule != RuleKind::FunctionArguments {
            return Err(mismatch_error(RuleKind::FunctionArguments, a));
        }
        let mut i: usize = 0;
        while i < a.children.len()
            invariant
                i <= a.children.len(),
                o.rule == RuleKind::FunctionCall,
                o.children.len() > 1,
                *a == o.children[1],
                a.rule == RuleKind::FunctionArguments,
                identifier_result(o.children[0]) == Ok::<_, ErrorModel>(
                    function_name@,
                ),
                expressions_from(*a, 0, budget as nat) == prepend(
                    expressions_model(arguments@),
                    expressions_from(*a, i as int, budget as nat),
                ),
            decreases a.children.len() - i,
        {
            let x = match expression_within(&a.children[i], budget) {
                Ok(x) => x,
                Err(e) => return Err(e),
            };
            proof {
                lemma_expressions_model_push(arguments@, x);
                lemma_prepend_step(
                    expressions_model(arguments@),
                    x@,
                    expressions_from(*a, i + 1, budget as nat),
                );
            }
            arguments.push(x);
            i += 1;
        }
        proof {
            assert(expressions_model(arguments@) + Seq::empty()
                =~= expressions_model(arguments@));
        }
    }
    Ok(FunctionCall { function_name, arguments, span: o.span })
}

/// Builds a function definition. When the first child is a parameter list, its
/// identifiers are the parameters and the next child is the body; otherwise
/// there are no parameters and the first child is the body.
fn parse_function_definition(o: &Occurrence, budget: usize) -> (r: Result<
    FunctionDefinition,
    AstError,
>)
    ensures
        agrees(r, function_definition_result(*o, budget as nat)),
    decreases o, 0int,
{
    if o.rule != RuleKind::FunctionDefinition {
        return Err(mismatch_error(RuleKind::FunctionDefinition, o));
    }
    if o.children.len() == 0 {
        return Err(AstError::MissingChild { context: ChildContext::FunctionDefinitionBody });
    }
    let first = &o.children[0];
    let mut parameters: Vec<Identifier> = Vec::new();
    let body = if first.rule == RuleKind::IdentList {
        let mut i: usize = 0;
        while i < first.children.len()
            invariant
                i <= first.children.len(),
                o.rule == RuleKind::FunctionDefinition,
                o.children.len() > 0,
                *first == o.children[0],
                first.rule == RuleKind::IdentList,
                identifiers_from(*first, 0) == prepend(
                    identifiers_model(parameters@),
                    identifiers_from(*first, i as int),
                ),
            decreases first.children.len() - i,
        {
            let x = match parse_identifier(&first.children[i]) {
                Ok(x) => x,
                Err(e) => return Err(e),
            };
            proof {
                lemma_identifiers_model_push(parameters@, x);
                lemma_prepend_step(
                    identifiers_model(parameters@),
                    x@,
                    identifiers_from(*first, i + 1),
                );
            }
            parameters.push(x);
            i += 1;
        }
        proof {
            assert(identifiers_model(parameters@) + Seq::empty()
                =~= identifiers_model(parameters@));
        }
        if o.children.len() < 2 {
            return Err(AstError::MissingChild { context: ChildContext::FunctionDefinitionBody });
        }
        match expression_within(&o.children[1], budget) {
            Ok(x) => x,
            Err(e) => return Err(e),
        }
    } else {
        match expression_within(first, budget) {
            Ok(x) => x,
            Err(e) => return Err(e),
        }
    };
    proof {
        if first.rule != RuleKind::IdentList {
            assert(identifiers_model(parameters@) =~= Seq::empty());
        }
    }
    Ok(FunctionDefinition { parameters, body: Box::new(body), span: o.span })
}

/// Builds a block: the leading run of assignments, then exactly one trailing
/// expression, with nothing after it.
fn parse_block(o: &Occurrence, budget: usize) -> (r: Result<Block, AstError>)
    ensures
        agrees(r, block_result(*o, budget as nat)),
    decreases o, o.children.len() + 1,
{
    if o.rule != RuleKind::Block {
        return Err(mismatch_error(RuleKind::Block, o));
    }
    let mut assignments: Vec<Assignment> = Vec::new();
    let mut i: usize = 0;
    while i < o.children.len() && o.children[i].rule == RuleKind::Assignment
        invariant
            i <= o.children.len(),
            o.rule == RuleKind::Block,
            block_from(*o, 0, budget as nat) == prepend_run(
                assignments_model(assignments@),
                block_from(*o, i as int, budget as nat),
            ),
        decreases o.children.len() - i,
    {
        let x = match parse_assignment(&o.children[i], budget) {
            Ok(x) => x,
            Err(e) => return Err(e),
        };
        proof {
            lemma_assignments_model_push(assignments@, x);
            lemma_prepend_run_step(
                assignments_model(assignments@),
                x@,
                block_from(*o, i + 1, budget as nat),
            );
        }
        assignments.push(x);
        i += 1;
    }
    if i >= o.children.len() {
        return Err(AstError::MissingChild { context: ChildContext::BlockTail });
    }
    let tail = match expression_within(&o.children[i], budget) {
        Ok(x) => x,
        Err(e) => return Err(e),
    };
    if i + 1 < o.children.len() {
        let extra = &o.children[i + 1];
        return Err(
            AstError::StructuralError {
                problem: StructuralProblem::ExtraAfterBlockTail,
                actual: extra.rule,
                text: extra.text.clone(),
                span: extra.span,
            },
        );
    }
    proof {
        assert(assignments_model(assignments@) + Seq::empty()
            =~= assignments_model(assignments@));
    }
    Ok(Block { assignments, expression: Box::new(tail), span: o.span })
}

/// Builds an assignment: an identifier, then an expression.
fn parse_assignment(o: &Occurrence, budget: usize) -> (r: Result<Assignment, AstError>)
    ensures
        agrees(r, assignment_result(*o, budget as nat)),
    decreases o, 0int,
{
    if o.rule != RuleKind::Assignment {
        return Err(mismatch_error(RuleKind::Assignment, o));
    }
    if o.children.len() == 0 {
        return Err(AstError::MissingChild { context: ChildContext::AssignmentIdentifier });
    }
    let identifier = match parse_identifier(&o.children[0]) {
        Ok(i) => i,
        Err(e) => return Err(e),
    };
    if o.children.len() < 2 {
        return Err(AstError::MissingChild { context: ChildContext::AssignmentExpression });
    }
    let expression = match expression_within(&o.children[1], budget) {
        Ok(x) => x,
        Err(e) => return Err(e),
    };
    Ok(Assignment { identifier, expression: Box::new(expression), span: o.span })
}

/// Builds the program from the grammar engine's top-level occurrences: there
/// must be exactly one, tagged `program`, and each of its children must be an
/// assignment.
pub fn parse_program(top: &Vec<Occurrence>) -> (r: Result<Program, AstError>)
    ensures
        agrees(r, program_result(top@)),
{
    if top.len() != 1 {
        return Err(AstError::TopLevelArity { found: top.len() });
    }
    let p = &top[0];
    if p.rule != RuleKind::Program {
        return Err(mismatch_error(RuleKind::Program, p));
    }
    let mut assignments: Vec<Assignment> = Vec::new();
    let mut i: usize = 0;
    while i < p.children.len()
        invariant
            i <= p.children.len(),
            top.len() == 1,
            *p == top@[0],
            p.rule == RuleKind::Program,
            program_items_from(*p, 0) == prepend(
                assignments_model(assignments@),
                program_items_from(*p, i as int),
            ),
        decreases p.children.len() - i,
    {
        let c = &p.children[i];
        if c.rule != RuleKind::Assignment {
            return Err(
                AstError::StructuralError {
                    problem: StructuralProblem::NonAssignmentInProgram,
                    actual: c.rule,
                    text: c.text.clone(),
                    span: c.span,
                },
            );
        }
        let x = match parse_assignment(c, MAX_NESTING) {
            Ok(x) => x,
            Err(e) => return Err(e),
        };
        proof {
            lemma_assignments_model_push(assignments@, x);
            lemma_prepend_step(
                assignments_model(assignments@),
                x@,
                program_items_from(*p, i + 1),
            );
        }
        assignments.push(x);
        i += 1;
    }
    proof {
        assert(assignments_model(assignments@) + Seq::empty()
            =~= assignments_model(assignments@));
    }
    Ok(Program { assignments, span: p.span })
}

/// Runs the program assembler on what the grammar engine returned. An engine
/// error is handed on exactly as it came; otherwise the result is that of
/// [`parse_program`].
pub fn build_program(engine: Result<Vec<Occurrence>, String>) -> (r: Result<Program, ParseError>)
    ensures
        match engine {
            Err(m) => r == Err::<Program, ParseError>(ParseError::Syntax(m)),
            Ok(top) => match r {
                Ok(p) => program_result(top@) == Ok::<ProgramModel, ErrorModel>(p@),
                Err(ParseError::Ast(e)) => program_result(top@) == Err::<ProgramModel, ErrorModel>(
                    e@,
                ),
                Err(ParseError::Syntax(_)) => false,
            },
        },
{
    match engine {
        Err(m) => Err(ParseError::Syntax(m)),
        Ok(top) => match parse_program(&top) {
            Ok(p) => Ok(p),
            Err(e) => Err(ParseError::Ast(e)),
        },
    }
}

} // verus!
