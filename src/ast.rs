use vstd::prelude::*;

use crate::occurrence::Span;

verus! {

broadcast use {vstd::seq::group_seq_axioms, vstd::std_specs::vec::group_vec_axioms};

/// A name, with the span of the text it was copied from.
#[derive(Debug)]
pub struct Identifier {
    pub name: String,
    pub span: Span,
}

/// An integer literal, with the span of its text.
#[derive(Debug)]
pub struct Number {
    pub value: i64,
    pub span: Span,
}

/// One of the five forms an expression takes.
#[derive(Debug)]
pub enum Expression {
    Number(Number),
    Identifier(Identifier),
    FunctionCall(FunctionCall),
    FunctionDefinition(FunctionDefinition),
    Block(Block),
}

/// A call of a named function on arguments kept in source order.
#[derive(Debug)]
pub struct FunctionCall {
    pub function_name: Identifier,
    pub arguments: Vec<Expression>,
    pub span: Span,
}

/// A function value: parameters in declaration order (possibly none) and a body.
#[derive(Debug)]
pub struct FunctionDefinition {
    pub parameters: Vec<Identifier>,
    pub body: Box<Expression>,
    pub span: Span,
}

/// Local assignments followed by exactly one tail expression, the block's result.
#[derive(Debug)]
pub struct Block {
    pub assignments: Vec<Assignment>,
    pub expression: Box<Expression>,
    pub span: Span,
}

/// Binds one name to one expression.
#[derive(Debug)]
pub struct Assignment {
    pub identifier: Identifier,
    pub expression: Box<Expression>,
    pub span: Span,
}

/// The root: top-level assignments in execution order.
#[derive(Debug)]
pub struct Program {
    pub assignments: Vec<Assignment>,
    pub span: Span,
}

/// Any node of the tree.
#[derive(Debug)]
pub enum AstNode {
    Program(Program),
    Assignment(Assignment),
    Expression(Expression),
    Identifier(Identifier),
    Number(Number),
    FunctionCall(FunctionCall),
    FunctionDefinition(FunctionDefinition),
    Block(Block),
}

/// The mathematical value of an [`Identifier`].
pub struct IdentifierModel {
    pub name: Seq<char>,
    pub span: Span,
}

/// The mathematical value of a [`Number`].
pub struct NumberModel {
    pub value: i64,
    pub span: Span,
}

/// The mathematical value of an [`Expression`].
pub enum ExpressionModel {
    Number(NumberModel),
    Identifier(IdentifierModel),
    FunctionCall(FunctionCallModel),
    FunctionDefinition(FunctionDefinitionModel),
    Block(BlockModel),
}

/// The mathematical value of a [`FunctionCall`].
pub struct FunctionCallModel {
    pub function_name: IdentifierModel,
    pub arguments: Seq<ExpressionModel>,
    pub span: Span,
}

/// The mathematical value of a [`FunctionDefinition`].
pub struct FunctionDefinitionModel {
    pub parameters: Seq<IdentifierModel>,
    pub body: Box<ExpressionModel>,
    pub span: Span,
}

/// The mathematical value of a [`Block`].
pub struct BlockModel {
    pub assignments: Seq<AssignmentModel>,
    pub expression: Box<ExpressionModel>,
    pub span: Span,
}

/// The mathematical value of an [`Assignment`].
pub struct AssignmentModel {
    pub identifier: IdentifierModel,
    pub expression: Box<ExpressionModel>,
    pub span: Span,
}

/// The mathematical value of a [`Program`].
pub struct ProgramModel {
    pub assignments: Seq<AssignmentModel>,
    pub span: Span,
}

impl View for Identifier {
    type V = IdentifierModel;

    open spec fn view(&self) -> IdentifierModel {
        IdentifierModel { name: self.name@, span: self.span }
    }
}

impl View for Number {
    type V = NumberModel;

    open spec fn view(&self) -> NumberModel {
        NumberModel { value: self.value, span: self.span }
    }
}

/// The models of a sequence of identifiers, in the same order.
pub open spec fn identifiers_model(s: Seq<Identifier>) -> Seq<IdentifierModel> {
    s.map_values(|i: Identifier| i@)
}

/// The model of an expression.
pub open spec fn expression_model(e: Expression) -> ExpressionModel
    decreases e,
{
    match e {
        Expression::Number(n) => ExpressionModel::Number(n@),
        Expression::Identifier(i) => ExpressionModel::Identifier(i@),
        Expression::FunctionCall(c) => ExpressionModel::FunctionCall(
            FunctionCallModel {
                function_name: c.function_name@,
                arguments: expressions_model(c.arguments@),
                span: c.span,
            },
        ),
        Expression::FunctionDefinition(d) => ExpressionModel::FunctionDefinition(
            FunctionDefinitionModel {
                parameters: identifiers_model(d.parameters@),
                body: Box::new(expression_model(*d.body)),
                span: d.span,
            },
        ),
        Expression::Block(b) => ExpressionModel::Block(
            BlockModel {
                assignments: assignments_model(b.assignments@),
                expression: Box::new(expression_model(*b.expression)),
                span: b.span,
            },
        ),
    }
}

/// The models of a sequence of expressions, in the same order.
pub open spec fn expressions_model(s: Seq<Expression>) -> Seq<ExpressionModel>
    decreases s,
{
    if s.len() == 0 {
        Seq::empty()
    } else {
        expressions_model(s.drop_last()).push(expression_model(s.last()))
    }
}

/// The model of an assignment.
pub open spec fn assignment_model(a: Assignment) -> AssignmentModel
    decreases a,
{
    AssignmentModel {
        identifier: a.identifier@,
        expression: Box::new(expression_model(*a.expression)),
        span: a.span,
    }
}

/// The models of a sequence of assignments, in the same order.
pub open spec fn assignments_model(s: Seq<Assignment>) -> Seq<AssignmentModel>
    decreases s,
{
    if s.len() == 0 {
        Seq::empty()
    } else {
        assignments_model(s.drop_last()).push(assignment_model(s.last()))
    }
}

impl View for Expression {
    type V = ExpressionModel;

    open spec fn view(&self) -> ExpressionModel {
        expression_model(*self)
    }
}

impl View for Assignment {
    type V = AssignmentModel;

    open spec fn view(&self) -> AssignmentModel {
        assignment_model(*self)
    }
}

impl View for Program {
    type V = ProgramModel;

    open spec fn view(&self) -> ProgramModel {
        ProgramModel { assignments: assignments_model(self.assignments@), span: self.span }
    }
}

impl View for FunctionCall {
    type V = FunctionCallModel;

    open spec fn view(&self) -> FunctionCallModel {
        FunctionCallModel {
            function_name: self.function_name@,
            arguments: expressions_model(self.arguments@),
            span: self.span,
        }
    }
}

impl View for FunctionDefinition {
    type V = FunctionDefinitionModel;

    open spec fn view(&self) -> FunctionDefinitionModel {
        FunctionDefinitionModel {
            parameters: identifiers_model(self.parameters@),
            body: Box::new(expression_model(*self.body)),
            span: self.span,
        }
    }
}

impl View for Block {
    type V = BlockModel;

    open spec fn view(&self) -> BlockModel {
        BlockModel {
            assignments: assignments_model(self.assignments@),
            expression: Box::new(expression_model(*self.expression)),
            span: self.span,
        }
    }
}

pub proof fn lemma_identifiers_model_push(s: Seq<Identifier>, x: Identifier)
    ensures
        identifiers_model(s.push(x)) == identifiers_model(s).push(x@),
{
    assert(identifiers_model(s.push(x)) =~= identifiers_model(s).push(x@));
}

pub proof fn lemma_expressions_model_push(s: Seq<Expression>, x: Expression)
    ensures
        expressions_model(s.push(x)) == expressions_model(s).push(x@),
{
    assert(s.push(x).drop_last() =~= s);
}

pub proof fn lemma_assignments_model_push(s: Seq<Assignment>, x: Assignment)
    ensures
        assignments_model(s.push(x)) == assignments_model(s).push(x@),
{
    assert(s.push(x).drop_last() =~= s);
}

} // verus!
